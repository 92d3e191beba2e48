//! The structural differ: compares two document snapshots field by field and
//! produces a path-addressed change set.
//!
//! The comparison never fails: absent fields are valid inputs.  Its exact
//! outcome is given by [`spec_diff`] and the spec functions it is built from;
//! every comparison function's contract states that it appends precisely the
//! [`ChangeDelta`] of the pieces it compared.
//!
//! Paths: top-level scalar fields are addressed by their bare name, every
//! nested path is slash-prefixed.  Additions carry the whole new
//! sub-structure; schema and property deletions carry the old one, while
//! resource, method and parameter deletions carry no payload.  Both
//! inconsistencies are deliberate and kept: downstream consumers depend on
//! these shapes.

use vstd::prelude::*;
use crate::change::{
    addition_at, bare_deletion_at, deletion_at, modification_at, Change, ChangeDelta, ChangeSet,
    ChangeSetView, ChangeView,
};
use crate::document::{DiscoveryDocument, DocumentView};
use crate::document::{clone_parameter_map, Parameter, ParameterView, Request, Response};
use crate::document::{
    clone_method_map, clone_property_map, clone_resource_map, clone_schema_map, Method, MethodView,
    Property, PropertyView, RequestView, Resource, ResourceView, ResponseView, Schema, SchemaView,
};
use crate::keymap::{assoc_contains, assoc_get, has_key, lookup};
use crate::text::{clone_str_vec, concat_str, opt_str_eq, str_vec_eq};
use crate::value::{ChangeValue, ChangeValueView};

verus! {

/// A field value that can stand in a change payload.
pub trait FieldValue: Sized {
    /// The payload view this field carries.
    spec fn field_view(&self) -> ChangeValueView;

    /// Equality at the level of payload views.
    fn field_eq(&self, other: &Self) -> (r: bool)
        ensures
            r == (self.field_view() == other.field_view()),
    ;

    /// The payload carried when this field appears in a change.
    fn to_change_value(&self) -> (v: ChangeValue)
        ensures
            v.deep_view() == self.field_view(),
    ;
}

impl FieldValue for String {
    open spec fn field_view(&self) -> ChangeValueView {
        ChangeValueView::Str(self.deep_view())
    }

    fn field_eq(&self, other: &Self) -> (r: bool)
        ensures
            r == (self.field_view() == other.field_view()),
    {
        self.eq(other)
    }

    fn to_change_value(&self) -> (v: ChangeValue)
        ensures
            v.deep_view() == self.field_view(),
    {
        ChangeValue::Str(self.clone())
    }
}

impl FieldValue for bool {
    open spec fn field_view(&self) -> ChangeValueView {
        ChangeValueView::Flag(*self)
    }

    fn field_eq(&self, other: &Self) -> (r: bool)
        ensures
            r == (self.field_view() == other.field_view()),
    {
        *self == *other
    }

    fn to_change_value(&self) -> (v: ChangeValue)
        ensures
            v.deep_view() == self.field_view(),
    {
        ChangeValue::Flag(*self)
    }
}

impl FieldValue for Vec<String> {
    open spec fn field_view(&self) -> ChangeValueView {
        ChangeValueView::StrList(self.deep_view())
    }

    fn field_eq(&self, other: &Self) -> (r: bool)
        ensures
            r == (self.field_view() == other.field_view()),
    {
        str_vec_eq(self, other)
    }

    fn to_change_value(&self) -> (v: ChangeValue)
        ensures
            v.deep_view() == self.field_view(),
    {
        ChangeValue::StrList(clone_str_vec(self))
    }
}

impl FieldValue for Request {
    open spec fn field_view(&self) -> ChangeValueView {
        ChangeValueView::Request(self.deep_view())
    }

    fn field_eq(&self, other: &Self) -> (r: bool)
        ensures
            r == (self.field_view() == other.field_view()),
    {
        opt_str_eq(&self.reference, &other.reference)
    }

    fn to_change_value(&self) -> (v: ChangeValue)
        ensures
            v.deep_view() == self.field_view(),
    {
        ChangeValue::Request(self.clone())
    }
}

impl FieldValue for Response {
    open spec fn field_view(&self) -> ChangeValueView {
        ChangeValueView::Response(self.deep_view())
    }

    fn field_eq(&self, other: &Self) -> (r: bool)
        ensures
            r == (self.field_view() == other.field_view()),
    {
        opt_str_eq(&self.reference, &other.reference)
    }

    fn to_change_value(&self) -> (v: ChangeValue)
        ensures
            v.deep_view() == self.field_view(),
    {
        ChangeValue::Response(self.clone())
    }
}

/// The payload view of an optional field.
pub open spec fn opt_field_view<T: FieldValue>(o: Option<T>) -> Option<ChangeValueView> {
    match o {
        Some(t) => Some(t.field_view()),
        None => None,
    }
}

/// An optional string field, as an optional payload view.
pub open spec fn ostr(o: Option<Seq<char>>) -> Option<ChangeValueView> {
    match o {
        Some(s) => Some(ChangeValueView::Str(s)),
        None => None,
    }
}

/// An optional string-list field, as an optional payload view.
pub open spec fn ostr_list(o: Option<Seq<Seq<char>>>) -> Option<ChangeValueView> {
    match o {
        Some(s) => Some(ChangeValueView::StrList(s)),
        None => None,
    }
}

/// An optional flag field, as an optional payload view.
pub open spec fn oflag(o: Option<bool>) -> Option<ChangeValueView> {
    match o {
        Some(b) => Some(ChangeValueView::Flag(b)),
        None => None,
    }
}

/// What comparing one optional field at `path` contributes: both present and
/// unequal is a modification carrying both values; only the old present is a
/// deletion carrying it; only the new present is an addition carrying it;
/// otherwise nothing.
pub open spec fn spec_field_diff(
    path: Seq<char>,
    o: Option<ChangeValueView>,
    n: Option<ChangeValueView>,
) -> ChangeDelta {
    match (o, n) {
        (Some(ov), Some(nv)) => if ov != nv {
            ChangeDelta::one_modification(modification_at(path, ov, nv))
        } else {
            ChangeDelta::empty()
        },
        (Some(ov), None) => ChangeDelta::one_deletion(deletion_at(path, ov)),
        (None, Some(nv)) => ChangeDelta::one_addition(addition_at(path, nv)),
        (None, None) => ChangeDelta::empty(),
    }
}

/// The three change lists grow by exactly `d`.
pub open spec fn applies_delta(
    pre_m: Seq<ChangeView>,
    pre_a: Seq<ChangeView>,
    pre_d: Seq<ChangeView>,
    post_m: Seq<ChangeView>,
    post_a: Seq<ChangeView>,
    post_d: Seq<ChangeView>,
    d: ChangeDelta,
) -> bool {
    &&& post_m == pre_m + d.modifications
    &&& post_a == pre_a + d.additions
    &&& post_d == pre_d + d.deletions
}

/// Appending `f`'s lists after `acc`'s is the same as appending the lists of
/// `acc.followed_by(f)`.
pub proof fn lemma_delta_chain(
    pre_m: Seq<ChangeView>,
    pre_a: Seq<ChangeView>,
    pre_d: Seq<ChangeView>,
    acc: ChangeDelta,
    f: ChangeDelta,
)
    ensures
        (pre_m + acc.modifications) + f.modifications == pre_m + acc.followed_by(f).modifications,
        (pre_a + acc.additions) + f.additions == pre_a + acc.followed_by(f).additions,
        (pre_d + acc.deletions) + f.deletions == pre_d + acc.followed_by(f).deletions,
{
    assert((pre_m + acc.modifications) + f.modifications =~= pre_m + (acc.modifications
        + f.modifications));
    assert((pre_a + acc.additions) + f.additions =~= pre_a + (acc.additions + f.additions));
    assert((pre_d + acc.deletions) + f.deletions =~= pre_d + (acc.deletions + f.deletions));
}

/// Appending nothing changes nothing.
pub proof fn lemma_delta_empty(pre_m: Seq<ChangeView>, pre_a: Seq<ChangeView>, pre_d: Seq<
    ChangeView,
>)
    ensures
        pre_m + ChangeDelta::empty().modifications == pre_m,
        pre_a + ChangeDelta::empty().additions == pre_a,
        pre_d + ChangeDelta::empty().deletions == pre_d,
{
    assert(pre_m + ChangeDelta::empty().modifications =~= pre_m);
    assert(pre_a + ChangeDelta::empty().additions =~= pre_a);
    assert(pre_d + ChangeDelta::empty().deletions =~= pre_d);
}

fn push_change(list: &mut Vec<Change>, c: Change)
    ensures
        final(list).deep_view() == old(list).deep_view() + seq![c.deep_view()],
{
    let ghost pre = list.deep_view();
    list.push(c);
    proof {
        assert(list.deep_view() =~= pre + seq![c.deep_view()]);
    }
}

/// The structural differ.  A pure, synchronous computation with no state of
/// its own; any two well-typed documents are diffable.
pub struct DiffEngine;

impl DiffEngine {
    pub fn new() -> Self {
        DiffEngine
    }

    /// Compares one optional field, appending at most one change.
    fn compare_field<T: FieldValue>(
        &self,
        path: &str,
        old_field: &Option<T>,
        new_field: &Option<T>,
        modifications: &mut Vec<Change>,
        additions: &mut Vec<Change>,
        deletions: &mut Vec<Change>,
    )
        ensures
            applies_delta(
                old(modifications).deep_view(),
                old(additions).deep_view(),
                old(deletions).deep_view(),
                final(modifications).deep_view(),
                final(additions).deep_view(),
                final(deletions).deep_view(),
                spec_field_diff(path@, opt_field_view(*old_field), opt_field_view(*new_field)),
            ),
    {
        proof {
            assert(old(modifications).deep_view() + Seq::<ChangeView>::empty() =~= old(
                modifications,
            ).deep_view());
            assert(old(additions).deep_view() + Seq::<ChangeView>::empty() =~= old(
                additions,
            ).deep_view());
            assert(old(deletions).deep_view() + Seq::<ChangeView>::empty() =~= old(
                deletions,
            ).deep_view());
        }
        match (old_field, new_field) {
            (Some(ov), Some(nv)) => {
                if !ov.field_eq(nv) {
                    push_change(
                        modifications,
                        Change {
                            path: path.to_owned(),
                            value: None,
                            old_value: Some(ov.to_change_value()),
                            new_value: Some(nv.to_change_value()),
                        },
                    );
                }
            },
            (Some(ov), None) => {
                push_change(
                    deletions,
                    Change {
                        path: path.to_owned(),
                        value: None,
                        old_value: Some(ov.to_change_value()),
                        new_value: None,
                    },
                );
            },
            (None, Some(nv)) => {
                push_change(
                    additions,
                    Change {
                        path: path.to_owned(),
                        value: Some(nv.to_change_value()),
                        old_value: None,
                        new_value: None,
                    },
                );
            },
            (None, None) => {},
        }
    }

    /// Compares one field that is present on both sides.
    fn compare_required_field<T: FieldValue>(
        &self,
        path: &str,
        old_field: &T,
        new_field: &T,
        modifications: &mut Vec<Change>,
        additions: &mut Vec<Change>,
        deletions: &mut Vec<Change>,
    )
        ensures
            applies_delta(
                old(modifications).deep_view(),
                old(additions).deep_view(),
                old(deletions).deep_view(),
                final(modifications).deep_view(),
                final(additions).deep_view(),
                final(deletions).deep_view(),
                spec_field_diff(
                    path@,
                    Some(old_field.field_view()),
                    Some(new_field.field_view()),
                ),
            ),
    {
        proof {
            assert(old(modifications).deep_view() + Seq::<ChangeView>::empty() =~= old(
                modifications,
            ).deep_view());
            assert(old(additions).deep_view() + Seq::<ChangeView>::empty() =~= old(
                additions,
            ).deep_view());
            assert(old(deletions).deep_view() + Seq::<ChangeView>::empty() =~= old(
                deletions,
            ).deep_view());
        }
        if !old_field.field_eq(new_field) {
            push_change(
                modifications,
                Change {
                    path: path.to_owned(),
                    value: None,
                    old_value: Some(old_field.to_change_value()),
                    new_value: Some(new_field.to_change_value()),
                },
            );
        }
    }

    /// Compares the seven named top-level scalar fields, at their bare names.
    #[verifier::rlimit(50)]
    fn compare_top_level(
        &self,
        old_doc: &DiscoveryDocument,
        new_doc: &DiscoveryDocument,
        modifications: &mut Vec<Change>,
        additions: &mut Vec<Change>,
        deletions: &mut Vec<Change>,
    )
        ensures
            applies_delta(
                old(modifications).deep_view(),
                old(additions).deep_view(),
                old(deletions).deep_view(),
                final(modifications).deep_view(),
                final(additions).deep_view(),
                final(deletions).deep_view(),
                doc_top_diff(old_doc.deep_view(), new_doc.deep_view()),
            ),
    {
        let ghost ov = old_doc.deep_view();
        let ghost nv = new_doc.deep_view();
        let ghost m0 = modifications.deep_view();
        let ghost a0 = additions.deep_view();
        let ghost d0 = deletions.deep_view();
        let ghost mut acc = ChangeDelta::empty();
        proof {
            lemma_delta_empty(m0, a0, d0);
        }
        self.compare_field(
            "description",
            &old_doc.description,
            &new_doc.description,
            modifications,
            additions,
            deletions,
        );
        proof {
            let f = spec_field_diff("description"@, ostr(ov.description), ostr(nv.description));
            lemma_delta_chain(m0, a0, d0, acc, f);
            acc = acc.followed_by(f);
        }
        self.compare_field(
            "title",
            &old_doc.title,
            &new_doc.title,
            modifications,
            additions,
            deletions,
        );
        proof {
            let f = spec_field_diff("title"@, ostr(ov.title), ostr(nv.title));
            lemma_delta_chain(m0, a0, d0, acc, f);
            acc = acc.followed_by(f);
        }
        self.compare_field(
            "discoveryVersion",
            &old_doc.discovery_version,
            &new_doc.discovery_version,
            modifications,
            additions,
            deletions,
        );
        proof {
            let f = spec_field_diff(
                "discoveryVersion"@,
                ostr(ov.discovery_version),
                ostr(nv.discovery_version),
            );
            lemma_delta_chain(m0, a0, d0, acc, f);
            acc = acc.followed_by(f);
        }
        self.compare_field(
            "revision",
            &old_doc.revision,
            &new_doc.revision,
            modifications,
            additions,
            deletions,
        );
        proof {
            let f = spec_field_diff("revision"@, ostr(ov.revision), ostr(nv.revision));
            lemma_delta_chain(m0, a0, d0, acc, f);
            acc = acc.followed_by(f);
        }
        self.compare_field(
            "ownerDomain",
            &old_doc.owner_domain,
            &new_doc.owner_domain,
            modifications,
            additions,
            deletions,
        );
        proof {
            let f = spec_field_diff("ownerDomain"@, ostr(ov.owner_domain), ostr(nv.owner_domain));
            lemma_delta_chain(m0, a0, d0, acc, f);
            acc = acc.followed_by(f);
        }
        self.compare_field(
            "baseUrl",
            &old_doc.base_url,
            &new_doc.base_url,
            modifications,
            additions,
            deletions,
        );
        proof {
            let f = spec_field_diff("baseUrl"@, ostr(ov.base_url), ostr(nv.base_url));
            lemma_delta_chain(m0, a0, d0, acc, f);
            acc = acc.followed_by(f);
        }
        self.compare_field(
            "documentationLink",
            &old_doc.documentation_link,
            &new_doc.documentation_link,
            modifications,
            additions,
            deletions,
        );
        proof {
            let f = spec_field_diff(
                "documentationLink"@,
                ostr(ov.documentation_link),
                ostr(nv.documentation_link),
            );
            lemma_delta_chain(m0, a0, d0, acc, f);
            acc = acc.followed_by(f);
            assert(acc =~= doc_top_diff(ov, nv));
        }
    }

    /// Compares one parameter present on both sides.
    fn compare_parameter(
        &self,
        path: &str,
        old_param: &Parameter,
        new_param: &Parameter,
        modifications: &mut Vec<Change>,
        additions: &mut Vec<Change>,
        deletions: &mut Vec<Change>,
    )
        ensures
            applies_delta(
                old(modifications).deep_view(),
                old(additions).deep_view(),
                old(deletions).deep_view(),
                final(modifications).deep_view(),
                final(additions).deep_view(),
                final(deletions).deep_view(),
                parameter_fields_diff(path@, old_param.deep_view(), new_param.deep_view()),
            ),
    {
        let ghost ov = old_param.deep_view();
        let ghost nv = new_param.deep_view();
        let ghost m0 = modifications.deep_view();
        let ghost a0 = additions.deep_view();
        let ghost d0 = deletions.deep_view();
        let ghost mut acc = ChangeDelta::empty();
        proof {
            lemma_delta_empty(m0, a0, d0);
        }
        self.compare_field(
            concat_str(path, "/type").as_str(),
            &old_param.param_type,
            &new_param.param_type,
            modifications,
            additions,
            deletions,
        );
        proof {
            let f = spec_field_diff(path@ + "/type"@, ostr(ov.param_type), ostr(nv.param_type));
            lemma_delta_chain(m0, a0, d0, acc, f);
            acc = acc.followed_by(f);
        }
        self.compare_field(
            concat_str(path, "/description").as_str(),
            &old_param.description,
            &new_param.description,
            modifications,
            additions,
            deletions,
        );
        proof {
            let f = spec_field_diff(
                path@ + "/description"@,
                ostr(ov.description),
                ostr(nv.description),
            );
            lemma_delta_chain(m0, a0, d0, acc, f);
            acc = acc.followed_by(f);
        }
        self.compare_field(
            concat_str(path, "/required").as_str(),
            &old_param.required,
            &new_param.required,
            modifications,
            additions,
            deletions,
        );
        proof {
            let f = spec_field_diff(path@ + "/required"@, oflag(ov.required), oflag(nv.required));
            lemma_delta_chain(m0, a0, d0, acc, f);
            acc = acc.followed_by(f);
        }
        self.compare_field(
            concat_str(path, "/location").as_str(),
            &old_param.location,
            &new_param.location,
            modifications,
            additions,
            deletions,
        );
        proof {
            let f = spec_field_diff(path@ + "/location"@, ostr(ov.location), ostr(nv.location));
            lemma_delta_chain(m0, a0, d0, acc, f);
            acc = acc.followed_by(f);
            assert(acc =~= parameter_fields_diff(path@, ov, nv));
        }
    }

    /// Compares two optional parameter maps under `path`.
    fn compare_parameters(
        &self,
        path: &str,
        old_params: &Option<Vec<(String, Parameter)>>,
        new_params: &Option<Vec<(String, Parameter)>>,
        modifications: &mut Vec<Change>,
        additions: &mut Vec<Change>,
        deletions: &mut Vec<Change>,
    )
        ensures
            applies_delta(
                old(modifications).deep_view(),
                old(additions).deep_view(),
                old(deletions).deep_view(),
                final(modifications).deep_view(),
                final(additions).deep_view(),
                final(deletions).deep_view(),
                parameters_diff(path@, old_params.deep_view(), new_params.deep_view()),
            ),
    {
        let ghost m0 = modifications.deep_view();
        let ghost a0 = additions.deep_view();
        let ghost d0 = deletions.deep_view();
        match (old_params, new_params) {
            (Some(old_vec), Some(new_vec)) => {
                let ghost omv = old_vec.deep_view();
                let ghost nmv = new_vec.deep_view();
                let mut i: usize = 0;
                while i < new_vec.len()
                    invariant
                        0 <= i <= new_vec.len(),
                        omv == old_vec.deep_view(),
                        nmv == new_vec.deep_view(),
                        nmv.len() == new_vec.len(),
                        applies_delta(
                            m0,
                            a0,
                            d0,
                            modifications.deep_view(),
                            additions.deep_view(),
                            deletions.deep_view(),
                            parameters_added_diff(omv, nmv.take(i as int), path@),
                        ),
                    decreases new_vec.len() - i,
                {
                    proof {
                        assert(nmv[i as int] == (
                            new_vec@[i as int].0.deep_view(),
                            new_vec@[i as int].1.deep_view(),
                        ));
                    }
                    let ghost acc = parameters_added_diff(omv, nmv.take(i as int), path@);
                    let entry_path = concat_str(
                        concat_str(path, "/parameters/").as_str(),
                        new_vec[i].0.as_str(),
                    );
                    match lookup(old_vec, new_vec[i].0.as_str()) {
                        Some(old_p) => {
                            self.compare_parameter(
                                entry_path.as_str(),
                                old_p,
                                &new_vec[i].1,
                                modifications,
                                additions,
                                deletions,
                            );
                        },
                        None => {
                            push_change(
                                additions,
                                Change {
                                    path: entry_path,
                                    value: Some(ChangeValue::Parameter(new_vec[i].1.clone())),
                                    old_value: None,
                                    new_value: None,
                                },
                            );
                        },
                    }
                    proof {
                        let k = nmv[i as int].0;
                        let np = nmv[i as int].1;
                        let f = match assoc_get(omv, k) {
                            Some(op) => parameter_fields_diff(parameter_path(path@, k), op, np),
                            None => ChangeDelta::one_addition(
                                addition_at(parameter_path(path@, k), ChangeValueView::Parameter(np)),
                            ),
                        };
                        if assoc_get(omv, k) is None {
                            assert(modifications.deep_view() == (m0 + acc.modifications)
                                + f.modifications) by {
                                assert((m0 + acc.modifications) + f.modifications =~= m0
                                    + acc.modifications);
                            }
                            assert(deletions.deep_view() == (d0 + acc.deletions) + f.deletions) by {
                                assert((d0 + acc.deletions) + f.deletions =~= d0 + acc.deletions);
                            }
                        }
                        lemma_delta_chain(m0, a0, d0, acc, f);
                        assert(nmv.take(i + 1).drop_last() =~= nmv.take(i as int));
                        assert(nmv.take(i + 1).last() == nmv[i as int]);
                        assert(parameters_added_diff(omv, nmv.take(i + 1), path@) == acc.followed_by(
                            f,
                        ));
                    }
                    i += 1;
                }
                proof {
                    assert(nmv.take(nmv.len() as int) =~= nmv);
                }
                let ghost added = parameters_added_diff(omv, nmv, path@);
                let ghost m1 = modifications.deep_view();
                let ghost a1 = additions.deep_view();
                let ghost d1 = deletions.deep_view();
                let mut i: usize = 0;
                while i < old_vec.len()
                    invariant
                        0 <= i <= old_vec.len(),
                        omv == old_vec.deep_view(),
                        nmv == new_vec.deep_view(),
                        omv.len() == old_vec.len(),
                        applies_delta(
                            m1,
                            a1,
                            d1,
                            modifications.deep_view(),
                            additions.deep_view(),
                            deletions.deep_view(),
                            parameters_removed_diff(omv.take(i as int), nmv, path@),
                        ),
                    decreases old_vec.len() - i,
                {
                    proof {
                        assert(omv[i as int] == (
                            old_vec@[i as int].0.deep_view(),
                            old_vec@[i as int].1.deep_view(),
                        ));
                    }
                    let ghost acc = parameters_removed_diff(omv.take(i as int), nmv, path@);
                    let ghost k = omv[i as int].0;
                    if !has_key(new_vec, old_vec[i].0.as_str()) {
                        let entry_path = concat_str(
                            concat_str(path, "/parameters/").as_str(),
                            old_vec[i].0.as_str(),
                        );
                        push_change(
                            deletions,
                            Change {
                                path: entry_path,
                                value: None,
                                old_value: None,
                                new_value: None,
                            },
                        );
                    }
                    proof {
                        let f = if assoc_contains(nmv, k) {
                            ChangeDelta::empty()
                        } else {
                            ChangeDelta::one_deletion(bare_deletion_at(parameter_path(path@, k)))
                        };
                        assert(modifications.deep_view() == (m1 + acc.modifications)
                            + f.modifications) by {
                            assert((m1 + acc.modifications) + f.modifications =~= m1
                                + acc.modifications);
                        }
                        assert(additions.deep_view() == (a1 + acc.additions) + f.additions) by {
                            assert((a1 + acc.additions) + f.additions =~= a1 + acc.additions);
                        }
                        if assoc_contains(nmv, k) {
                            assert(deletions.deep_view() == (d1 + acc.deletions) + f.deletions)
                                by {
                                assert((d1 + acc.deletions) + f.deletions =~= d1 + acc.deletions);
                            }
                        }
                        lemma_delta_chain(m1, a1, d1, acc, f);
                        assert(omv.take(i + 1).drop_last() =~= omv.take(i as int));
                        assert(omv.take(i + 1).last() == omv[i as int]);
                        assert(parameters_removed_diff(omv.take(i + 1), nmv, path@)
                            == acc.followed_by(f));
                    }
                    i += 1;
                }
                proof {
                    assert(omv.take(omv.len() as int) =~= omv);
                    let removed = parameters_removed_diff(omv, nmv, path@);
                    lemma_delta_chain(m0, a0, d0, added, removed);
                }
            },
            (None, Some(new_vec)) => {
                push_change(
                    additions,
                    Change {
                        path: concat_str(path, "/parameters"),
                        value: Some(ChangeValue::ParameterMap(clone_parameter_map(new_vec))),
                        old_value: None,
                        new_value: None,
                    },
                );
                proof {
                    lemma_delta_empty(m0, a0, d0);
                    assert(modifications.deep_view() =~= m0
                        + parameters_diff(
                        path@,
                        old_params.deep_view(),
                        new_params.deep_view(),
                    ).modifications);
                    assert(deletions.deep_view() =~= d0
                        + parameters_diff(
                        path@,
                        old_params.deep_view(),
                        new_params.deep_view(),
                    ).deletions);
                }
            },
            (Some(old_vec), None) => {
                push_change(
                    deletions,
                    Change {
                        path: concat_str(path, "/parameters"),
                        value: None,
                        old_value: None,
                        new_value: None,
                    },
                );
                proof {
                    assert(modifications.deep_view() =~= m0
                        + parameters_diff(
                        path@,
                        old_params.deep_view(),
                        new_params.deep_view(),
                    ).modifications);
                    assert(additions.deep_view() =~= a0
                        + parameters_diff(
                        path@,
                        old_params.deep_view(),
                        new_params.deep_view(),
                    ).additions);
                }
            },
            (None, None) => {
                proof {
                    lemma_delta_empty(m0, a0, d0);
                }
            },
        }
    }

    /// Compares one method present on both sides.
    fn compare_method(
        &self,
        path: &str,
        old_method: &Method,
        new_method: &Method,
        modifications: &mut Vec<Change>,
        additions: &mut Vec<Change>,
        deletions: &mut Vec<Change>,
    )
        ensures
            applies_delta(
                old(modifications).deep_view(),
                old(additions).deep_view(),
                old(deletions).deep_view(),
                final(modifications).deep_view(),
                final(additions).deep_view(),
                final(deletions).deep_view(),
                method_fields_diff(path@, old_method.deep_view(), new_method.deep_view()),
            ),
    {
        let ghost ov = old_method.deep_view();
        let ghost nv = new_method.deep_view();
        let ghost m0 = modifications.deep_view();
        let ghost a0 = additions.deep_view();
        let ghost d0 = deletions.deep_view();
        let ghost mut acc = ChangeDelta::empty();
        proof {
            lemma_delta_empty(m0, a0, d0);
        }
        self.compare_required_field(
            concat_str(path, "/id").as_str(),
            &old_method.id,
            &new_method.id,
            modifications,
            additions,
            deletions,
        );
        proof {
            let f = spec_field_diff(
                path@ + "/id"@,
                Some(ChangeValueView::Str(ov.id)),
                Some(ChangeValueView::Str(nv.id)),
            );
            lemma_delta_chain(m0, a0, d0, acc, f);
            acc = acc.followed_by(f);
        }
        self.compare_required_field(
            concat_str(path, "/path").as_str(),
            &old_method.path,
            &new_method.path,
            modifications,
            additions,
            deletions,
        );
        proof {
            let f = spec_field_diff(
                path@ + "/path"@,
                Some(ChangeValueView::Str(ov.path)),
                Some(ChangeValueView::Str(nv.path)),
            );
            lemma_delta_chain(m0, a0, d0, acc, f);
            acc = acc.followed_by(f);
        }
        self.compare_required_field(
            concat_str(path, "/httpMethod").as_str(),
            &old_method.http_method,
            &new_method.http_method,
            modifications,
            additions,
            deletions,
        );
        proof {
            let f = spec_field_diff(
                path@ + "/httpMethod"@,
                Some(ChangeValueView::Str(ov.http_method)),
                Some(ChangeValueView::Str(nv.http_method)),
            );
            lemma_delta_chain(m0, a0, d0, acc, f);
            acc = acc.followed_by(f);
        }
        self.compare_field(
            concat_str(path, "/description").as_str(),
            &old_method.description,
            &new_method.description,
            modifications,
            additions,
            deletions,
        );
        proof {
            let f = spec_field_diff(
                path@ + "/description"@,
                ostr(ov.description),
                ostr(nv.description),
            );
            lemma_delta_chain(m0, a0, d0, acc, f);
            acc = acc.followed_by(f);
        }
        self.compare_parameters(
            path,
            &old_method.parameters,
            &new_method.parameters,
            modifications,
            additions,
            deletions,
        );
        proof {
            let f = parameters_diff(path@, ov.parameters, nv.parameters);
            lemma_delta_chain(m0, a0, d0, acc, f);
            acc = acc.followed_by(f);
        }
        self.compare_field(
            concat_str(path, "/request").as_str(),
            &old_method.request,
            &new_method.request,
            modifications,
            additions,
            deletions,
        );
        proof {
            let f = spec_field_diff(path@ + "/request"@, oreq(ov.request), oreq(nv.request));
            lemma_delta_chain(m0, a0, d0, acc, f);
            acc = acc.followed_by(f);
        }
        self.compare_field(
            concat_str(path, "/response").as_str(),
            &old_method.response,
            &new_method.response,
            modifications,
            additions,
            deletions,
        );
        proof {
            let f = spec_field_diff(path@ + "/response"@, oresp(ov.response), oresp(nv.response));
            lemma_delta_chain(m0, a0, d0, acc, f);
            acc = acc.followed_by(f);
        }
        self.compare_field(
            concat_str(path, "/scopes").as_str(),
            &old_method.scopes,
            &new_method.scopes,
            modifications,
            additions,
            deletions,
        );
        proof {
            let f = spec_field_diff(path@ + "/scopes"@, ostr_list(ov.scopes), ostr_list(nv.scopes));
            lemma_delta_chain(m0, a0, d0, acc, f);
            acc = acc.followed_by(f);
            assert(acc =~= method_fields_diff(path@, ov, nv));
        }
    }

    /// Compares two optional method maps under `path`.
    fn compare_methods(
        &self,
        path: &str,
        old_methods: &Option<Vec<(String, Method)>>,
        new_methods: &Option<Vec<(String, Method)>>,
        modifications: &mut Vec<Change>,
        additions: &mut Vec<Change>,
        deletions: &mut Vec<Change>,
    )
        ensures
            applies_delta(
                old(modifications).deep_view(),
                old(additions).deep_view(),
                old(deletions).deep_view(),
                final(modifications).deep_view(),
                final(additions).deep_view(),
                final(deletions).deep_view(),
                methods_diff(path@, old_methods.deep_view(), new_methods.deep_view()),
            ),
    {
        let ghost m0 = modifications.deep_view();
        let ghost a0 = additions.deep_view();
        let ghost d0 = deletions.deep_view();
        match (old_methods, new_methods) {
            (Some(old_vec), Some(new_vec)) => {
                let ghost omv = old_vec.deep_view();
                let ghost nmv = new_vec.deep_view();
                let mut i: usize = 0;
                while i < new_vec.len()
                    invariant
                        0 <= i <= new_vec.len(),
                        omv == old_vec.deep_view(),
                        nmv == new_vec.deep_view(),
                        nmv.len() == new_vec.len(),
                        applies_delta(
                            m0,
                            a0,
                            d0,
                            modifications.deep_view(),
                            additions.deep_view(),
                            deletions.deep_view(),
                            methods_added_diff(omv, nmv.take(i as int), path@),
                        ),
                    decreases new_vec.len() - i,
                {
                    proof {
                        assert(nmv[i as int] == (
                            new_vec@[i as int].0.deep_view(),
                            new_vec@[i as int].1.deep_view(),
                        ));
                    }
                    let ghost acc = methods_added_diff(omv, nmv.take(i as int), path@);
                    let entry_path = concat_str(
                        concat_str(path, "/methods/").as_str(),
                        new_vec[i].0.as_str(),
                    );
                    match lookup(old_vec, new_vec[i].0.as_str()) {
                        Some(old_m) => {
                            self.compare_method(
                                entry_path.as_str(),
                                old_m,
                                &new_vec[i].1,
                                modifications,
                                additions,
                                deletions,
                            );
                        },
                        None => {
                            push_change(
                                additions,
                                Change {
                                    path: entry_path,
                                    value: Some(ChangeValue::Method(new_vec[i].1.clone())),
                                    old_value: None,
                                    new_value: None,
                                },
                            );
                        },
                    }
                    proof {
                        let k = nmv[i as int].0;
                        let np = nmv[i as int].1;
                        let f = match assoc_get(omv, k) {
                            Some(op) => method_fields_diff(method_path(path@, k), op, np),
                            None => ChangeDelta::one_addition(
                                addition_at(method_path(path@, k), ChangeValueView::Method(np)),
                            ),
                        };
                        if assoc_get(omv, k) is None {
                            assert(modifications.deep_view() == (m0 + acc.modifications)
                                + f.modifications) by {
                                assert((m0 + acc.modifications) + f.modifications =~= m0
                                    + acc.modifications);
                            }
                            assert(deletions.deep_view() == (d0 + acc.deletions) + f.deletions) by {
                                assert((d0 + acc.deletions) + f.deletions =~= d0 + acc.deletions);
                            }
                        }
                        lemma_delta_chain(m0, a0, d0, acc, f);
                        assert(nmv.take(i + 1).drop_last() =~= nmv.take(i as int));
                        assert(nmv.take(i + 1).last() == nmv[i as int]);
                        assert(methods_added_diff(omv, nmv.take(i + 1), path@) == acc.followed_by(
                            f,
                        ));
                    }
                    i += 1;
                }
                proof {
                    assert(nmv.take(nmv.len() as int) =~= nmv);
                }
                let ghost added = methods_added_diff(omv, nmv, path@);
                let ghost m1 = modifications.deep_view();
                let ghost a1 = additions.deep_view();
                let ghost d1 = deletions.deep_view();
                let mut i: usize = 0;
                while i < old_vec.len()
                    invariant
                        0 <= i <= old_vec.len(),
                        omv == old_vec.deep_view(),
                        nmv == new_vec.deep_view(),
                        omv.len() == old_vec.len(),
                        applies_delta(
                            m1,
                            a1,
                            d1,
                            modifications.deep_view(),
                            additions.deep_view(),
                            deletions.deep_view(),
                            methods_removed_diff(omv.take(i as int), nmv, path@),
                        ),
                    decreases old_vec.len() - i,
                {
                    proof {
                        assert(omv[i as int] == (
                            old_vec@[i as int].0.deep_view(),
                            old_vec@[i as int].1.deep_view(),
                        ));
                    }
                    let ghost acc = methods_removed_diff(omv.take(i as int), nmv, path@);
                    let ghost k = omv[i as int].0;
                    if !has_key(new_vec, old_vec[i].0.as_str()) {
                        let entry_path = concat_str(
                            concat_str(path, "/methods/").as_str(),
                            old_vec[i].0.as_str(),
                        );
                        push_change(
                            deletions,
                            Change {
                                path: entry_path,
                                value: None,
                                old_value: None,
                                new_value: None,
                            },
                        );
                    }
                    proof {
                        let f = if assoc_contains(nmv, k) {
                            ChangeDelta::empty()
                        } else {
                            ChangeDelta::one_deletion(bare_deletion_at(method_path(path@, k)))
                        };
                        assert(modifications.deep_view() == (m1 + acc.modifications)
                            + f.modifications) by {
                            assert((m1 + acc.modifications) + f.modifications =~= m1
                                + acc.modifications);
                        }
                        assert(additions.deep_view() == (a1 + acc.additions) + f.additions) by {
                            assert((a1 + acc.additions) + f.additions =~= a1 + acc.additions);
                        }
                        if assoc_contains(nmv, k) {
                            assert(deletions.deep_view() == (d1 + acc.deletions) + f.deletions)
                                by {
                                assert((d1 + acc.deletions) + f.deletions =~= d1 + acc.deletions);
                            }
                        }
                        lemma_delta_chain(m1, a1, d1, acc, f);
                        assert(omv.take(i + 1).drop_last() =~= omv.take(i as int));
                        assert(omv.take(i + 1).last() == omv[i as int]);
                        assert(methods_removed_diff(omv.take(i + 1), nmv, path@) == acc.followed_by(
                            f,
                        ));
                    }
                    i += 1;
                }
                proof {
                    assert(omv.take(omv.len() as int) =~= omv);
                    let removed = methods_removed_diff(omv, nmv, path@);
                    lemma_delta_chain(m0, a0, d0, added, removed);
                }
            },
            (None, Some(new_vec)) => {
                push_change(
                    additions,
                    Change {
                        path: concat_str(path, "/methods"),
                        value: Some(ChangeValue::MethodMap(clone_method_map(new_vec))),
                        old_value: None,
                        new_value: None,
                    },
                );
                proof {
                    assert(modifications.deep_view() =~= m0
                        + methods_diff(
                        path@,
                        old_methods.deep_view(),
                        new_methods.deep_view(),
                    ).modifications);
                    assert(deletions.deep_view() =~= d0
                        + methods_diff(
                        path@,
                        old_methods.deep_view(),
                        new_methods.deep_view(),
                    ).deletions);
                }
            },
            (Some(old_vec), None) => {
                push_change(
                    deletions,
                    Change {
                        path: concat_str(path, "/methods"),
                        value: None,
                        old_value: None,
                        new_value: None,
                    },
                );
                proof {
                    assert(modifications.deep_view() =~= m0
                        + methods_diff(
                        path@,
                        old_methods.deep_view(),
                        new_methods.deep_view(),
                    ).modifications);
                    assert(additions.deep_view() =~= a0
                        + methods_diff(
                        path@,
                        old_methods.deep_view(),
                        new_methods.deep_view(),
                    ).additions);
                }
            },
            (None, None) => {
                proof {
                    lemma_delta_empty(m0, a0, d0);
                }
            },
        }
    }

    /// Compares one property present on both sides.
    fn compare_property(
        &self,
        path: &str,
        old_prop: &Property,
        new_prop: &Property,
        modifications: &mut Vec<Change>,
        additions: &mut Vec<Change>,
        deletions: &mut Vec<Change>,
    )
        ensures
            applies_delta(
                old(modifications).deep_view(),
                old(additions).deep_view(),
                old(deletions).deep_view(),
                final(modifications).deep_view(),
                final(additions).deep_view(),
                final(deletions).deep_view(),
                property_fields_diff(path@, old_prop.deep_view(), new_prop.deep_view()),
            ),
    {
        let ghost ov = old_prop.deep_view();
        let ghost nv = new_prop.deep_view();
        let ghost m0 = modifications.deep_view();
        let ghost a0 = additions.deep_view();
        let ghost d0 = deletions.deep_view();
        let ghost mut acc = ChangeDelta::empty();
        proof {
            lemma_delta_empty(m0, a0, d0);
        }
        self.compare_field(
            concat_str(path, "/type").as_str(),
            &old_prop.property_type,
            &new_prop.property_type,
            modifications,
            additions,
            deletions,
        );
        proof {
            let f = spec_field_diff(
                path@ + "/type"@,
                ostr(ov.property_type),
                ostr(nv.property_type),
            );
            lemma_delta_chain(m0, a0, d0, acc, f);
            acc = acc.followed_by(f);
        }
        self.compare_field(
            concat_str(path, "/$ref").as_str(),
            &old_prop.reference,
            &new_prop.reference,
            modifications,
            additions,
            deletions,
        );
        proof {
            let f = spec_field_diff(path@ + "/$ref"@, ostr(ov.reference), ostr(nv.reference));
            lemma_delta_chain(m0, a0, d0, acc, f);
            acc = acc.followed_by(f);
        }
        self.compare_field(
            concat_str(path, "/format").as_str(),
            &old_prop.format,
            &new_prop.format,
            modifications,
            additions,
            deletions,
        );
        proof {
            let f = spec_field_diff(path@ + "/format"@, ostr(ov.format), ostr(nv.format));
            lemma_delta_chain(m0, a0, d0, acc, f);
            acc = acc.followed_by(f);
        }
        self.compare_field(
            concat_str(path, "/description").as_str(),
            &old_prop.description,
            &new_prop.description,
            modifications,
            additions,
            deletions,
        );
        proof {
            let f = spec_field_diff(
                path@ + "/description"@,
                ostr(ov.description),
                ostr(nv.description),
            );
            lemma_delta_chain(m0, a0, d0, acc, f);
            acc = acc.followed_by(f);
            assert(acc =~= property_fields_diff(path@, ov, nv));
        }
    }

    /// Compares two optional property maps under `path`.
    fn compare_properties(
        &self,
        path: &str,
        old_props: &Option<Vec<(String, Property)>>,
        new_props: &Option<Vec<(String, Property)>>,
        modifications: &mut Vec<Change>,
        additions: &mut Vec<Change>,
        deletions: &mut Vec<Change>,
    )
        ensures
            applies_delta(
                old(modifications).deep_view(),
                old(additions).deep_view(),
                old(deletions).deep_view(),
                final(modifications).deep_view(),
                final(additions).deep_view(),
                final(deletions).deep_view(),
                properties_diff(path@, old_props.deep_view(), new_props.deep_view()),
            ),
    {
        let ghost m0 = modifications.deep_view();
        let ghost a0 = additions.deep_view();
        let ghost d0 = deletions.deep_view();
        match (old_props, new_props) {
            (Some(old_vec), Some(new_vec)) => {
                let ghost omv = old_vec.deep_view();
                let ghost nmv = new_vec.deep_view();
                let mut i: usize = 0;
                while i < new_vec.len()
                    invariant
                        0 <= i <= new_vec.len(),
                        omv == old_vec.deep_view(),
                        nmv == new_vec.deep_view(),
                        nmv.len() == new_vec.len(),
                        applies_delta(
                            m0,
                            a0,
                            d0,
                            modifications.deep_view(),
                            additions.deep_view(),
                            deletions.deep_view(),
                            properties_added_diff(omv, nmv.take(i as int), path@),
                        ),
                    decreases new_vec.len() - i,
                {
                    proof {
                        assert(nmv[i as int] == (
                            new_vec@[i as int].0.deep_view(),
                            new_vec@[i as int].1.deep_view(),
                        ));
                    }
                    let ghost acc = properties_added_diff(omv, nmv.take(i as int), path@);
                    let entry_path = concat_str(
                        concat_str(path, "/properties/").as_str(),
                        new_vec[i].0.as_str(),
                    );
                    match lookup(old_vec, new_vec[i].0.as_str()) {
                        Some(old_p) => {
                            self.compare_property(
                                entry_path.as_str(),
                                old_p,
                                &new_vec[i].1,
                                modifications,
                                additions,
                                deletions,
                            );
                        },
                        None => {
                            push_change(
                                additions,
                                Change {
                                    path: entry_path,
                                    value: Some(ChangeValue::Property(new_vec[i].1.clone())),
                                    old_value: None,
                                    new_value: None,
                                },
                            );
                        },
                    }
                    proof {
                        let k = nmv[i as int].0;
                        let np = nmv[i as int].1;
                        let f = match assoc_get(omv, k) {
                            Some(op) => property_fields_diff(property_path(path@, k), op, np),
                            None => ChangeDelta::one_addition(
                                addition_at(property_path(path@, k), ChangeValueView::Property(np)),
                            ),
                        };
                        if assoc_get(omv, k) is None {
                            assert(modifications.deep_view() == (m0 + acc.modifications)
                                + f.modifications) by {
                                assert((m0 + acc.modifications) + f.modifications =~= m0
                                    + acc.modifications);
                            }
                            assert(deletions.deep_view() == (d0 + acc.deletions) + f.deletions) by {
                                assert((d0 + acc.deletions) + f.deletions =~= d0 + acc.deletions);
                            }
                        }
                        lemma_delta_chain(m0, a0, d0, acc, f);
                        assert(nmv.take(i + 1).drop_last() =~= nmv.take(i as int));
                        assert(nmv.take(i + 1).last() == nmv[i as int]);
                        assert(properties_added_diff(omv, nmv.take(i + 1), path@)
                            == acc.followed_by(f));
                    }
                    i += 1;
                }
                proof {
                    assert(nmv.take(nmv.len() as int) =~= nmv);
                }
                let ghost added = properties_added_diff(omv, nmv, path@);
                let ghost m1 = modifications.deep_view();
                let ghost a1 = additions.deep_view();
                let ghost d1 = deletions.deep_view();
                let mut i: usize = 0;
                while i < old_vec.len()
                    invariant
                        0 <= i <= old_vec.len(),
                        omv == old_vec.deep_view(),
                        nmv == new_vec.deep_view(),
                        omv.len() == old_vec.len(),
                        applies_delta(
                            m1,
                            a1,
                            d1,
                            modifications.deep_view(),
                            additions.deep_view(),
                            deletions.deep_view(),
                            properties_removed_diff(omv.take(i as int), nmv, path@),
                        ),
                    decreases old_vec.len() - i,
                {
                    proof {
                        assert(omv[i as int] == (
                            old_vec@[i as int].0.deep_view(),
                            old_vec@[i as int].1.deep_view(),
                        ));
                    }
                    let ghost acc = properties_removed_diff(omv.take(i as int), nmv, path@);
                    let ghost k = omv[i as int].0;
                    if !has_key(new_vec, old_vec[i].0.as_str()) {
                        let entry_path = concat_str(
                            concat_str(path, "/properties/").as_str(),
                            old_vec[i].0.as_str(),
                        );
                        push_change(
                            deletions,
                            Change {
                                path: entry_path,
                                value: None,
                                old_value: Some(ChangeValue::Property(old_vec[i].1.clone())),
                                new_value: None,
                            },
                        );
                    }
                    proof {
                        let f = if assoc_contains(nmv, k) {
                            ChangeDelta::empty()
                        } else {
                            ChangeDelta::one_deletion(
                                deletion_at(
                                    property_path(path@, k),
                                    ChangeValueView::Property(omv[i as int].1),
                                ),
                            )
                        };
                        assert(modifications.deep_view() == (m1 + acc.modifications)
                            + f.modifications) by {
                            assert((m1 + acc.modifications) + f.modifications =~= m1
                                + acc.modifications);
                        }
                        assert(additions.deep_view() == (a1 + acc.additions) + f.additions) by {
                            assert((a1 + acc.additions) + f.additions =~= a1 + acc.additions);
                        }
                        if assoc_contains(nmv, k) {
                            assert(deletions.deep_view() == (d1 + acc.deletions) + f.deletions)
                                by {
                                assert((d1 + acc.deletions) + f.deletions =~= d1 + acc.deletions);
                            }
                        }
                        lemma_delta_chain(m1, a1, d1, acc, f);
                        assert(omv.take(i + 1).drop_last() =~= omv.take(i as int));
                        assert(omv.take(i + 1).last() == omv[i as int]);
                        assert(properties_removed_diff(omv.take(i + 1), nmv, path@)
                            == acc.followed_by(f));
                    }
                    i += 1;
                }
                proof {
                    assert(omv.take(omv.len() as int) =~= omv);
                    let removed = properties_removed_diff(omv, nmv, path@);
                    lemma_delta_chain(m0, a0, d0, added, removed);
                }
            },
            (None, Some(new_vec)) => {
                push_change(
                    additions,
                    Change {
                        path: concat_str(path, "/properties"),
                        value: Some(ChangeValue::PropertyMap(clone_property_map(new_vec))),
                        old_value: None,
                        new_value: None,
                    },
                );
                proof {
                    assert(modifications.deep_view() =~= m0
                        + properties_diff(
                        path@,
                        old_props.deep_view(),
                        new_props.deep_view(),
                    ).modifications);
                    assert(deletions.deep_view() =~= d0
                        + properties_diff(
                        path@,
                        old_props.deep_view(),
                        new_props.deep_view(),
                    ).deletions);
                }
            },
            (Some(old_vec), None) => {
                push_change(
                    deletions,
                    Change {
                        path: concat_str(path, "/properties"),
                        value: None,
                        old_value: Some(ChangeValue::PropertyMap(clone_property_map(old_vec))),
                        new_value: None,
                    },
                );
                proof {
                    assert(modifications.deep_view() =~= m0
                        + properties_diff(
                        path@,
                        old_props.deep_view(),
                        new_props.deep_view(),
                    ).modifications);
                    assert(additions.deep_view() =~= a0
                        + properties_diff(
                        path@,
                        old_props.deep_view(),
                        new_props.deep_view(),
                    ).additions);
                }
            },
            (None, None) => {
                proof {
                    lemma_delta_empty(m0, a0, d0);
                }
            },
        }
    }

    /// Compares two schemas stored under the same key.
    fn compare_schema(
        &self,
        key: &str,
        old_schema: &Schema,
        new_schema: &Schema,
        modifications: &mut Vec<Change>,
        additions: &mut Vec<Change>,
        deletions: &mut Vec<Change>,
    )
        ensures
            applies_delta(
                old(modifications).deep_view(),
                old(additions).deep_view(),
                old(deletions).deep_view(),
                final(modifications).deep_view(),
                final(additions).deep_view(),
                final(deletions).deep_view(),
                schema_matched_diff(key@, old_schema.deep_view(), new_schema.deep_view()),
            ),
    {
        let ghost m0 = modifications.deep_view();
        let ghost a0 = additions.deep_view();
        let ghost d0 = deletions.deep_view();
        let path = concat_str("/schemas/", key);
        match (old_schema, new_schema) {
            (Schema::Object(old_obj), Schema::Object(new_obj)) => {
                let ghost ov = old_obj.deep_view();
                let ghost nv = new_obj.deep_view();
                let ghost mut acc = ChangeDelta::empty();
                proof {
                    lemma_delta_empty(m0, a0, d0);
                }
                self.compare_field(
                    concat_str(path.as_str(), "/type").as_str(),
                    &old_obj.schema_type,
                    &new_obj.schema_type,
                    modifications,
                    additions,
                    deletions,
                );
                proof {
                    let f = spec_field_diff(
                        schema_path(key@) + "/type"@,
                        ostr(ov.schema_type),
                        ostr(nv.schema_type),
                    );
                    lemma_delta_chain(m0, a0, d0, acc, f);
                    acc = acc.followed_by(f);
                }
                self.compare_field(
                    concat_str(path.as_str(), "/id").as_str(),
                    &old_obj.id,
                    &new_obj.id,
                    modifications,
                    additions,
                    deletions,
                );
                proof {
                    let f = spec_field_diff(schema_path(key@) + "/id"@, ostr(ov.id), ostr(nv.id));
                    lemma_delta_chain(m0, a0, d0, acc, f);
                    acc = acc.followed_by(f);
                }
                self.compare_properties(
                    path.as_str(),
                    &old_obj.properties,
                    &new_obj.properties,
                    modifications,
                    additions,
                    deletions,
                );
                proof {
                    let f = properties_diff(schema_path(key@), ov.properties, nv.properties);
                    lemma_delta_chain(m0, a0, d0, acc, f);
                    acc = acc.followed_by(f);
                    assert(acc =~= schema_matched_diff(
                        key@,
                        old_schema.deep_view(),
                        new_schema.deep_view(),
                    ));
                }
            },
            (Schema::Enum(old_enum), Schema::Enum(new_enum)) => {
                let ghost ov = old_enum.deep_view();
                let ghost nv = new_enum.deep_view();
                let ghost mut acc = ChangeDelta::empty();
                proof {
                    lemma_delta_empty(m0, a0, d0);
                }
                self.compare_field(
                    concat_str(path.as_str(), "/type").as_str(),
                    &old_enum.schema_type,
                    &new_enum.schema_type,
                    modifications,
                    additions,
                    deletions,
                );
                proof {
                    let f = spec_field_diff(
                        schema_path(key@) + "/type"@,
                        ostr(ov.schema_type),
                        ostr(nv.schema_type),
                    );
                    lemma_delta_chain(m0, a0, d0, acc, f);
                    acc = acc.followed_by(f);
                }
                self.compare_field(
                    concat_str(path.as_str(), "/id").as_str(),
                    &old_enum.id,
                    &new_enum.id,
                    modifications,
                    additions,
                    deletions,
                );
                proof {
                    let f = spec_field_diff(schema_path(key@) + "/id"@, ostr(ov.id), ostr(nv.id));
                    lemma_delta_chain(m0, a0, d0, acc, f);
                    acc = acc.followed_by(f);
                }
                self.compare_properties(
                    path.as_str(),
                    &old_enum.properties,
                    &new_enum.properties,
                    modifications,
                    additions,
                    deletions,
                );
                proof {
                    let f = properties_diff(schema_path(key@), ov.properties, nv.properties);
                    lemma_delta_chain(m0, a0, d0, acc, f);
                    acc = acc.followed_by(f);
                }
                self.compare_required_field(
                    concat_str(path.as_str(), "/enumeration").as_str(),
                    &old_enum.enumeration,
                    &new_enum.enumeration,
                    modifications,
                    additions,
                    deletions,
                );
                proof {
                    let f = spec_field_diff(
                        schema_path(key@) + "/enumeration"@,
                        Some(ChangeValueView::StrList(ov.enumeration)),
                        Some(ChangeValueView::StrList(nv.enumeration)),
                    );
                    lemma_delta_chain(m0, a0, d0, acc, f);
                    acc = acc.followed_by(f);
                }
                self.compare_field(
                    concat_str(path.as_str(), "/enumDescriptions").as_str(),
                    &old_enum.enum_descriptions,
                    &new_enum.enum_descriptions,
                    modifications,
                    additions,
                    deletions,
                );
                proof {
                    let f = spec_field_diff(
                        schema_path(key@) + "/enumDescriptions"@,
                        ostr_list(ov.enum_descriptions),
                        ostr_list(nv.enum_descriptions),
                    );
                    lemma_delta_chain(m0, a0, d0, acc, f);
                    acc = acc.followed_by(f);
                    assert(acc =~= schema_matched_diff(
                        key@,
                        old_schema.deep_view(),
                        new_schema.deep_view(),
                    ));
                }
            },
            _ => {
                push_change(
                    modifications,
                    Change {
                        path,
                        value: None,
                        old_value: Some(ChangeValue::Schema(old_schema.clone())),
                        new_value: Some(ChangeValue::Schema(new_schema.clone())),
                    },
                );
                proof {
                    let d = schema_matched_diff(
                        key@,
                        old_schema.deep_view(),
                        new_schema.deep_view(),
                    );
                    assert(additions.deep_view() =~= a0 + d.additions);
                    assert(deletions.deep_view() =~= d0 + d.deletions);
                }
            },
        }
    }

    /// Compares two optional schema maps.
    fn compare_schemas(
        &self,
        old_schemas: &Option<Vec<(String, Schema)>>,
        new_schemas: &Option<Vec<(String, Schema)>>,
        modifications: &mut Vec<Change>,
        additions: &mut Vec<Change>,
        deletions: &mut Vec<Change>,
    )
        ensures
            applies_delta(
                old(modifications).deep_view(),
                old(additions).deep_view(),
                old(deletions).deep_view(),
                final(modifications).deep_view(),
                final(additions).deep_view(),
                final(deletions).deep_view(),
                schemas_diff(old_schemas.deep_view(), new_schemas.deep_view()),
            ),
    {
        let ghost m0 = modifications.deep_view();
        let ghost a0 = additions.deep_view();
        let ghost d0 = deletions.deep_view();
        match (old_schemas, new_schemas) {
            (Some(old_vec), Some(new_vec)) => {
                let ghost omv = old_vec.deep_view();
                let ghost nmv = new_vec.deep_view();
                let mut i: usize = 0;
                while i < new_vec.len()
                    invariant
                        0 <= i <= new_vec.len(),
                        omv == old_vec.deep_view(),
                        nmv == new_vec.deep_view(),
                        nmv.len() == new_vec.len(),
                        applies_delta(
                            m0,
                            a0,
                            d0,
                            modifications.deep_view(),
                            additions.deep_view(),
                            deletions.deep_view(),
                            schemas_added_diff(omv, nmv.take(i as int)),
                        ),
                    decreases new_vec.len() - i,
                {
                    proof {
                        assert(nmv[i as int] == (
                            new_vec@[i as int].0.deep_view(),
                            new_vec@[i as int].1.deep_view(),
                        ));
                    }
                    let ghost acc = schemas_added_diff(omv, nmv.take(i as int));
                    match lookup(old_vec, new_vec[i].0.as_str()) {
                        Some(old_s) => {
                            self.compare_schema(
                                new_vec[i].0.as_str(),
                                old_s,
                                &new_vec[i].1,
                                modifications,
                                additions,
                                deletions,
                            );
                        },
                        None => {
                            push_change(
                                additions,
                                Change {
                                    path: concat_str("/schemas/", new_vec[i].0.as_str()),
                                    value: Some(ChangeValue::Schema(new_vec[i].1.clone())),
                                    old_value: None,
                                    new_value: None,
                                },
                            );
                        },
                    }
                    proof {
                        let k = nmv[i as int].0;
                        let ns = nmv[i as int].1;
                        let f = match assoc_get(omv, k) {
                            Some(os) => schema_matched_diff(k, os, ns),
                            None => ChangeDelta::one_addition(
                                addition_at(schema_path(k), ChangeValueView::Schema(ns)),
                            ),
                        };
                        if assoc_get(omv, k) is None {
                            assert(modifications.deep_view() == (m0 + acc.modifications)
                                + f.modifications) by {
                                assert((m0 + acc.modifications) + f.modifications =~= m0
                                    + acc.modifications);
                            }
                            assert(deletions.deep_view() == (d0 + acc.deletions) + f.deletions) by {
                                assert((d0 + acc.deletions) + f.deletions =~= d0 + acc.deletions);
                            }
                        }
                        lemma_delta_chain(m0, a0, d0, acc, f);
                        assert(nmv.take(i + 1).drop_last() =~= nmv.take(i as int));
                        assert(nmv.take(i + 1).last() == nmv[i as int]);
                        assert(schemas_added_diff(omv, nmv.take(i + 1)) == acc.followed_by(f));
                    }
                    i += 1;
                }
                proof {
                    assert(nmv.take(nmv.len() as int) =~= nmv);
                }
                let ghost added = schemas_added_diff(omv, nmv);
                let ghost m1 = modifications.deep_view();
                let ghost a1 = additions.deep_view();
                let ghost d1 = deletions.deep_view();
                let mut i: usize = 0;
                while i < old_vec.len()
                    invariant
                        0 <= i <= old_vec.len(),
                        omv == old_vec.deep_view(),
                        nmv == new_vec.deep_view(),
                        omv.len() == old_vec.len(),
                        applies_delta(
                            m1,
                            a1,
                            d1,
                            modifications.deep_view(),
                            additions.deep_view(),
                            deletions.deep_view(),
                            schemas_removed_diff(omv.take(i as int), nmv),
                        ),
                    decreases old_vec.len() - i,
                {
                    proof {
                        assert(omv[i as int] == (
                            old_vec@[i as int].0.deep_view(),
                            old_vec@[i as int].1.deep_view(),
                        ));
                    }
                    let ghost acc = schemas_removed_diff(omv.take(i as int), nmv);
                    let ghost k = omv[i as int].0;
                    if !has_key(new_vec, old_vec[i].0.as_str()) {
                        push_change(
                            deletions,
                            Change {
                                path: concat_str("/schemas/", old_vec[i].0.as_str()),
                                value: None,
                                old_value: Some(ChangeValue::Schema(old_vec[i].1.clone())),
                                new_value: None,
                            },
                        );
                    }
                    proof {
                        let f = if assoc_contains(nmv, k) {
                            ChangeDelta::empty()
                        } else {
                            ChangeDelta::one_deletion(
                                deletion_at(
                                    schema_path(k),
                                    ChangeValueView::Schema(omv[i as int].1),
                                ),
                            )
                        };
                        assert(modifications.deep_view() == (m1 + acc.modifications)
                            + f.modifications) by {
                            assert((m1 + acc.modifications) + f.modifications =~= m1
                                + acc.modifications);
                        }
                        assert(additions.deep_view() == (a1 + acc.additions) + f.additions) by {
                            assert((a1 + acc.additions) + f.additions =~= a1 + acc.additions);
                        }
                        if assoc_contains(nmv, k) {
                            assert(deletions.deep_view() == (d1 + acc.deletions) + f.deletions)
                                by {
                                assert((d1 + acc.deletions) + f.deletions =~= d1 + acc.deletions);
                            }
                        }
                        lemma_delta_chain(m1, a1, d1, acc, f);
                        assert(omv.take(i + 1).drop_last() =~= omv.take(i as int));
                        assert(omv.take(i + 1).last() == omv[i as int]);
                        assert(schemas_removed_diff(omv.take(i + 1), nmv) == acc.followed_by(f));
                    }
                    i += 1;
                }
                proof {
                    assert(omv.take(omv.len() as int) =~= omv);
                    let removed = schemas_removed_diff(omv, nmv);
                    lemma_delta_chain(m0, a0, d0, added, removed);
                }
            },
            (None, Some(new_vec)) => {
                push_change(
                    additions,
                    Change {
                        path: "/schemas".to_owned(),
                        value: Some(ChangeValue::SchemaMap(clone_schema_map(new_vec))),
                        old_value: None,
                        new_value: None,
                    },
                );
                proof {
                    assert(modifications.deep_view() =~= m0 + schemas_diff(
                        old_schemas.deep_view(),
                        new_schemas.deep_view(),
                    ).modifications);
                    assert(deletions.deep_view() =~= d0 + schemas_diff(
                        old_schemas.deep_view(),
                        new_schemas.deep_view(),
                    ).deletions);
                }
            },
            (Some(old_vec), None) => {
                push_change(
                    deletions,
                    Change {
                        path: "/schemas".to_owned(),
                        value: None,
                        old_value: Some(ChangeValue::SchemaMap(clone_schema_map(old_vec))),
                        new_value: None,
                    },
                );
                proof {
                    assert(modifications.deep_view() =~= m0 + schemas_diff(
                        old_schemas.deep_view(),
                        new_schemas.deep_view(),
                    ).modifications);
                    assert(additions.deep_view() =~= a0 + schemas_diff(
                        old_schemas.deep_view(),
                        new_schemas.deep_view(),
                    ).additions);
                }
            },
            (None, None) => {
                proof {
                    lemma_delta_empty(m0, a0, d0);
                }
            },
        }
    }

    /// Compares two optional resource maps.
    fn compare_resources(
        &self,
        old_resources: &Option<Vec<(String, Resource)>>,
        new_resources: &Option<Vec<(String, Resource)>>,
        modifications: &mut Vec<Change>,
        additions: &mut Vec<Change>,
        deletions: &mut Vec<Change>,
    )
        ensures
            applies_delta(
                old(modifications).deep_view(),
                old(additions).deep_view(),
                old(deletions).deep_view(),
                final(modifications).deep_view(),
                final(additions).deep_view(),
                final(deletions).deep_view(),
                resources_diff(old_resources.deep_view(), new_resources.deep_view()),
            ),
    {
        let ghost m0 = modifications.deep_view();
        let ghost a0 = additions.deep_view();
        let ghost d0 = deletions.deep_view();
        match (old_resources, new_resources) {
            (Some(old_vec), Some(new_vec)) => {
                let ghost omv = old_vec.deep_view();
                let ghost nmv = new_vec.deep_view();
                let mut i: usize = 0;
                while i < new_vec.len()
                    invariant
                        0 <= i <= new_vec.len(),
                        omv == old_vec.deep_view(),
                        nmv == new_vec.deep_view(),
                        nmv.len() == new_vec.len(),
                        applies_delta(
                            m0,
                            a0,
                            d0,
                            modifications.deep_view(),
                            additions.deep_view(),
                            deletions.deep_view(),
                            resources_added_diff(omv, nmv.take(i as int)),
                        ),
                    decreases new_vec.len() - i,
                {
                    proof {
                        assert(nmv[i as int] == (
                            new_vec@[i as int].0.deep_view(),
                            new_vec@[i as int].1.deep_view(),
                        ));
                    }
                    let ghost acc = resources_added_diff(omv, nmv.take(i as int));
                    let entry_path = concat_str("/resources/", new_vec[i].0.as_str());
                    match lookup(old_vec, new_vec[i].0.as_str()) {
                        Some(old_r) => {
                            self.compare_methods(
                                entry_path.as_str(),
                                &old_r.methods,
                                &new_vec[i].1.methods,
                                modifications,
                                additions,
                                deletions,
                            );
                        },
                        None => {
                            push_change(
                                additions,
                                Change {
                                    path: entry_path,
                                    value: Some(ChangeValue::Resource(new_vec[i].1.clone())),
                                    old_value: None,
                                    new_value: None,
                                },
                            );
                        },
                    }
                    proof {
                        let k = nmv[i as int].0;
                        let nr = nmv[i as int].1;
                        let f = match assoc_get(omv, k) {
                            Some(or) => methods_diff(resource_path(k), or.methods, nr.methods),
                            None => ChangeDelta::one_addition(
                                addition_at(resource_path(k), ChangeValueView::Resource(nr)),
                            ),
                        };
                        if assoc_get(omv, k) is None {
                            assert(modifications.deep_view() == (m0 + acc.modifications)
                                + f.modifications) by {
                                assert((m0 + acc.modifications) + f.modifications =~= m0
                                    + acc.modifications);
                            }
                            assert(deletions.deep_view() == (d0 + acc.deletions) + f.deletions) by {
                                assert((d0 + acc.deletions) + f.deletions =~= d0 + acc.deletions);
                            }
                        }
                        lemma_delta_chain(m0, a0, d0, acc, f);
                        assert(nmv.take(i + 1).drop_last() =~= nmv.take(i as int));
                        assert(nmv.take(i + 1).last() == nmv[i as int]);
                        assert(resources_added_diff(omv, nmv.take(i + 1)) == acc.followed_by(f));
                    }
                    i += 1;
                }
                proof {
                    assert(nmv.take(nmv.len() as int) =~= nmv);
                }
                let ghost added = resources_added_diff(omv, nmv);
                let ghost m1 = modifications.deep_view();
                let ghost a1 = additions.deep_view();
                let ghost d1 = deletions.deep_view();
                let mut i: usize = 0;
                while i < old_vec.len()
                    invariant
                        0 <= i <= old_vec.len(),
                        omv == old_vec.deep_view(),
                        nmv == new_vec.deep_view(),
                        omv.len() == old_vec.len(),
                        applies_delta(
                            m1,
                            a1,
                            d1,
                            modifications.deep_view(),
                            additions.deep_view(),
                            deletions.deep_view(),
                            resources_removed_diff(omv.take(i as int), nmv),
                        ),
                    decreases old_vec.len() - i,
                {
                    proof {
                        assert(omv[i as int] == (
                            old_vec@[i as int].0.deep_view(),
                            old_vec@[i as int].1.deep_view(),
                        ));
                    }
                    let ghost acc = resources_removed_diff(omv.take(i as int), nmv);
                    let ghost k = omv[i as int].0;
                    if !has_key(new_vec, old_vec[i].0.as_str()) {
                        push_change(
                            deletions,
                            Change {
                                path: concat_str("/resources/", old_vec[i].0.as_str()),
                                value: None,
                                old_value: None,
                                new_value: None,
                            },
                        );
                    }
                    proof {
                        let f = if assoc_contains(nmv, k) {
                            ChangeDelta::empty()
                        } else {
                            ChangeDelta::one_deletion(bare_deletion_at(resource_path(k)))
                        };
                        assert(modifications.deep_view() == (m1 + acc.modifications)
                            + f.modifications) by {
                            assert((m1 + acc.modifications) + f.modifications =~= m1
                                + acc.modifications);
                        }
                        assert(additions.deep_view() == (a1 + acc.additions) + f.additions) by {
                            assert((a1 + acc.additions) + f.additions =~= a1 + acc.additions);
                        }
                        if assoc_contains(nmv, k) {
                            assert(deletions.deep_view() == (d1 + acc.deletions) + f.deletions)
                                by {
                                assert((d1 + acc.deletions) + f.deletions =~= d1 + acc.deletions);
                            }
                        }
                        lemma_delta_chain(m1, a1, d1, acc, f);
                        assert(omv.take(i + 1).drop_last() =~= omv.take(i as int));
                        assert(omv.take(i + 1).last() == omv[i as int]);
                        assert(resources_removed_diff(omv.take(i + 1), nmv) == acc.followed_by(f));
                    }
                    i += 1;
                }
                proof {
                    assert(omv.take(omv.len() as int) =~= omv);
                    let removed = resources_removed_diff(omv, nmv);
                    lemma_delta_chain(m0, a0, d0, added, removed);
                }
            },
            (None, Some(new_vec)) => {
                push_change(
                    additions,
                    Change {
                        path: "/resources".to_owned(),
                        value: Some(ChangeValue::ResourceMap(clone_resource_map(new_vec))),
                        old_value: None,
                        new_value: None,
                    },
                );
                proof {
                    assert(modifications.deep_view() =~= m0 + resources_diff(
                        old_resources.deep_view(),
                        new_resources.deep_view(),
                    ).modifications);
                    assert(deletions.deep_view() =~= d0 + resources_diff(
                        old_resources.deep_view(),
                        new_resources.deep_view(),
                    ).deletions);
                }
            },
            (Some(old_vec), None) => {
                push_change(
                    deletions,
                    Change {
                        path: "/resources".to_owned(),
                        value: None,
                        old_value: None,
                        new_value: None,
                    },
                );
                proof {
                    assert(modifications.deep_view() =~= m0 + resources_diff(
                        old_resources.deep_view(),
                        new_resources.deep_view(),
                    ).modifications);
                    assert(additions.deep_view() =~= a0 + resources_diff(
                        old_resources.deep_view(),
                        new_resources.deep_view(),
                    ).additions);
                }
            },
            (None, None) => {
                proof {
                    lemma_delta_empty(m0, a0, d0);
                }
            },
        }
    }

    /// Compares two document snapshots for `service`, producing the complete
    /// change set given by [`spec_diff`].  Never fails: absent fields are
    /// valid inputs, and the same two documents always give the same result.
    pub fn diff(
        &self,
        old_doc: &DiscoveryDocument,
        new_doc: &DiscoveryDocument,
        service: &str,
    ) -> (r: ChangeSet)
        ensures
            r.deep_view() == spec_diff(old_doc.deep_view(), new_doc.deep_view(), service@),
    {
        let ghost ov = old_doc.deep_view();
        let ghost nv = new_doc.deep_view();
        let mut modifications: Vec<Change> = Vec::new();
        let mut additions: Vec<Change> = Vec::new();
        let mut deletions: Vec<Change> = Vec::new();
        let ghost m0 = modifications.deep_view();
        let ghost a0 = additions.deep_view();
        let ghost d0 = deletions.deep_view();
        let ghost mut acc = ChangeDelta::empty();
        proof {
            assert(m0 =~= Seq::<ChangeView>::empty());
            assert(a0 =~= Seq::<ChangeView>::empty());
            assert(d0 =~= Seq::<ChangeView>::empty());
            lemma_delta_empty(m0, a0, d0);
        }
        self.compare_top_level(old_doc, new_doc, &mut modifications, &mut additions, &mut deletions);
        proof {
            let f = doc_top_diff(ov, nv);
            lemma_delta_chain(m0, a0, d0, acc, f);
            acc = acc.followed_by(f);
        }
        self.compare_schemas(
            &old_doc.schemas,
            &new_doc.schemas,
            &mut modifications,
            &mut additions,
            &mut deletions,
        );
        proof {
            let f = schemas_diff(ov.schemas, nv.schemas);
            lemma_delta_chain(m0, a0, d0, acc, f);
            acc = acc.followed_by(f);
        }
        self.compare_resources(
            &old_doc.resources,
            &new_doc.resources,
            &mut modifications,
            &mut additions,
            &mut deletions,
        );
        proof {
            let f = resources_diff(ov.resources, nv.resources);
            lemma_delta_chain(m0, a0, d0, acc, f);
            acc = acc.followed_by(f);
            let d = doc_top_diff(ov, nv).followed_by(schemas_diff(ov.schemas, nv.schemas)).followed_by(
                resources_diff(ov.resources, nv.resources),
            );
            assert(acc =~= d);
            assert(modifications.deep_view() =~= d.modifications);
            assert(additions.deep_view() =~= d.additions);
            assert(deletions.deep_view() =~= d.deletions);
        }
        ChangeSet { service: service.to_owned(), modifications, additions, deletions }
    }
}

/// What comparing one matched parameter at `p` contributes: its four named
/// fields, each as an optional scalar field.
pub open spec fn parameter_fields_diff(p: Seq<char>, o: ParameterView, n: ParameterView) -> ChangeDelta {
    spec_field_diff(p + "/type"@, ostr(o.param_type), ostr(n.param_type)).followed_by(
        spec_field_diff(p + "/description"@, ostr(o.description), ostr(n.description)),
    ).followed_by(spec_field_diff(p + "/required"@, oflag(o.required), oflag(n.required))).followed_by(
        spec_field_diff(p + "/location"@, ostr(o.location), ostr(n.location)),
    )
}

/// The path of the parameter named `k` of the method at `mp`.
pub open spec fn parameter_path(mp: Seq<char>, k: Seq<char>) -> Seq<char> {
    mp + "/parameters/"@ + k
}

/// What scanning the new parameter map contributes: per key, a recursive
/// comparison when the old map has it, else one addition carrying the whole
/// new parameter.
pub open spec fn parameters_added_diff(
    om: Seq<(Seq<char>, ParameterView)>,
    nm: Seq<(Seq<char>, ParameterView)>,
    mp: Seq<char>,
) -> ChangeDelta
    decreases nm.len(),
{
    if nm.len() == 0 {
        ChangeDelta::empty()
    } else {
        let k = nm.last().0;
        let np = nm.last().1;
        let step = match assoc_get(om, k) {
            Some(op) => parameter_fields_diff(parameter_path(mp, k), op, np),
            None => ChangeDelta::one_addition(
                addition_at(parameter_path(mp, k), ChangeValueView::Parameter(np)),
            ),
        };
        parameters_added_diff(om, nm.drop_last(), mp).followed_by(step)
    }
}

/// What scanning the old parameter map contributes: one payload-free deletion
/// per key absent from the new map.
pub open spec fn parameters_removed_diff(
    om: Seq<(Seq<char>, ParameterView)>,
    nm: Seq<(Seq<char>, ParameterView)>,
    mp: Seq<char>,
) -> ChangeDelta
    decreases om.len(),
{
    if om.len() == 0 {
        ChangeDelta::empty()
    } else {
        let k = om.last().0;
        let step = if assoc_contains(nm, k) {
            ChangeDelta::empty()
        } else {
            ChangeDelta::one_deletion(bare_deletion_at(parameter_path(mp, k)))
        };
        parameters_removed_diff(om.drop_last(), nm, mp).followed_by(step)
    }
}

/// What comparing two optional parameter maps contributes.  A whole map only
/// on the new side is one addition carrying it; a whole map only on the old
/// side is one deletion with no payload.
pub open spec fn parameters_diff(
    mp: Seq<char>,
    o: Option<Seq<(Seq<char>, ParameterView)>>,
    n: Option<Seq<(Seq<char>, ParameterView)>>,
) -> ChangeDelta {
    match (o, n) {
        (Some(om), Some(nm)) => parameters_added_diff(om, nm, mp).followed_by(
            parameters_removed_diff(om, nm, mp),
        ),
        (None, Some(nm)) => ChangeDelta::one_addition(
            addition_at(mp + "/parameters"@, ChangeValueView::ParameterMap(nm)),
        ),
        (Some(om), None) => ChangeDelta::one_deletion(bare_deletion_at(mp + "/parameters"@)),
        (None, None) => ChangeDelta::empty(),
    }
}

/// An optional request reference, as an optional payload view.
pub open spec fn oreq(o: Option<RequestView>) -> Option<ChangeValueView> {
    match o {
        Some(r) => Some(ChangeValueView::Request(r)),
        None => None,
    }
}

/// An optional response reference, as an optional payload view.
pub open spec fn oresp(o: Option<ResponseView>) -> Option<ChangeValueView> {
    match o {
        Some(r) => Some(ChangeValueView::Response(r)),
        None => None,
    }
}

/// What comparing one matched method at `p` contributes: its seven named
/// fields and its parameter map.
pub open spec fn method_fields_diff(p: Seq<char>, o: MethodView, n: MethodView) -> ChangeDelta {
    spec_field_diff(
        p + "/id"@,
        Some(ChangeValueView::Str(o.id)),
        Some(ChangeValueView::Str(n.id)),
    ).followed_by(
        spec_field_diff(
            p + "/path"@,
            Some(ChangeValueView::Str(o.path)),
            Some(ChangeValueView::Str(n.path)),
        ),
    ).followed_by(
        spec_field_diff(
            p + "/httpMethod"@,
            Some(ChangeValueView::Str(o.http_method)),
            Some(ChangeValueView::Str(n.http_method)),
        ),
    ).followed_by(
        spec_field_diff(p + "/description"@, ostr(o.description), ostr(n.description)),
    ).followed_by(parameters_diff(p, o.parameters, n.parameters)).followed_by(
        spec_field_diff(p + "/request"@, oreq(o.request), oreq(n.request)),
    ).followed_by(spec_field_diff(p + "/response"@, oresp(o.response), oresp(n.response))).followed_by(
        spec_field_diff(p + "/scopes"@, ostr_list(o.scopes), ostr_list(n.scopes)),
    )
}

/// The path of the method named `k` of the resource at `rp`.
pub open spec fn method_path(rp: Seq<char>, k: Seq<char>) -> Seq<char> {
    rp + "/methods/"@ + k
}

/// What scanning the new method map contributes.
pub open spec fn methods_added_diff(
    om: Seq<(Seq<char>, MethodView)>,
    nm: Seq<(Seq<char>, MethodView)>,
    rp: Seq<char>,
) -> ChangeDelta
    decreases nm.len(),
{
    if nm.len() == 0 {
        ChangeDelta::empty()
    } else {
        let k = nm.last().0;
        let np = nm.last().1;
        let step = match assoc_get(om, k) {
            Some(op) => method_fields_diff(method_path(rp, k), op, np),
            None => ChangeDelta::one_addition(
                addition_at(method_path(rp, k), ChangeValueView::Method(np)),
            ),
        };
        methods_added_diff(om, nm.drop_last(), rp).followed_by(step)
    }
}

/// What scanning the old method map contributes: one payload-free deletion per
/// key absent from the new map.
pub open spec fn methods_removed_diff(
    om: Seq<(Seq<char>, MethodView)>,
    nm: Seq<(Seq<char>, MethodView)>,
    rp: Seq<char>,
) -> ChangeDelta
    decreases om.len(),
{
    if om.len() == 0 {
        ChangeDelta::empty()
    } else {
        let k = om.last().0;
        let step = if assoc_contains(nm, k) {
            ChangeDelta::empty()
        } else {
            ChangeDelta::one_deletion(bare_deletion_at(method_path(rp, k)))
        };
        methods_removed_diff(om.drop_last(), nm, rp).followed_by(step)
    }
}

/// What comparing two optional method maps contributes.
pub open spec fn methods_diff(
    rp: Seq<char>,
    o: Option<Seq<(Seq<char>, MethodView)>>,
    n: Option<Seq<(Seq<char>, MethodView)>>,
) -> ChangeDelta {
    match (o, n) {
        (Some(om), Some(nm)) => methods_added_diff(om, nm, rp).followed_by(
            methods_removed_diff(om, nm, rp),
        ),
        (None, Some(nm)) => ChangeDelta::one_addition(
            addition_at(rp + "/methods"@, ChangeValueView::MethodMap(nm)),
        ),
        (Some(om), None) => ChangeDelta::one_deletion(bare_deletion_at(rp + "/methods"@)),
        (None, None) => ChangeDelta::empty(),
    }
}

/// What comparing one matched property at `p` contributes: its four named
/// fields.
pub open spec fn property_fields_diff(p: Seq<char>, o: PropertyView, n: PropertyView) -> ChangeDelta {
    spec_field_diff(p + "/type"@, ostr(o.property_type), ostr(n.property_type)).followed_by(
        spec_field_diff(p + "/$ref"@, ostr(o.reference), ostr(n.reference)),
    ).followed_by(spec_field_diff(p + "/format"@, ostr(o.format), ostr(n.format))).followed_by(
        spec_field_diff(p + "/description"@, ostr(o.description), ostr(n.description)),
    )
}

/// The path of the property named `k` of the schema at `sp`.
pub open spec fn property_path(sp: Seq<char>, k: Seq<char>) -> Seq<char> {
    sp + "/properties/"@ + k
}

/// What scanning the new property map contributes.
pub open spec fn properties_added_diff(
    om: Seq<(Seq<char>, PropertyView)>,
    nm: Seq<(Seq<char>, PropertyView)>,
    sp: Seq<char>,
) -> ChangeDelta
    decreases nm.len(),
{
    if nm.len() == 0 {
        ChangeDelta::empty()
    } else {
        let k = nm.last().0;
        let np = nm.last().1;
        let step = match assoc_get(om, k) {
            Some(op) => property_fields_diff(property_path(sp, k), op, np),
            None => ChangeDelta::one_addition(
                addition_at(property_path(sp, k), ChangeValueView::Property(np)),
            ),
        };
        properties_added_diff(om, nm.drop_last(), sp).followed_by(step)
    }
}

/// What scanning the old property map contributes: one deletion carrying the
/// whole old property per key absent from the new map.
pub open spec fn properties_removed_diff(
    om: Seq<(Seq<char>, PropertyView)>,
    nm: Seq<(Seq<char>, PropertyView)>,
    sp: Seq<char>,
) -> ChangeDelta
    decreases om.len(),
{
    if om.len() == 0 {
        ChangeDelta::empty()
    } else {
        let k = om.last().0;
        let op = om.last().1;
        let step = if assoc_contains(nm, k) {
            ChangeDelta::empty()
        } else {
            ChangeDelta::one_deletion(
                deletion_at(property_path(sp, k), ChangeValueView::Property(op)),
            )
        };
        properties_removed_diff(om.drop_last(), nm, sp).followed_by(step)
    }
}

/// What comparing two optional property maps contributes.  Whole-map changes
/// carry the map on both the addition and the deletion side.
pub open spec fn properties_diff(
    sp: Seq<char>,
    o: Option<Seq<(Seq<char>, PropertyView)>>,
    n: Option<Seq<(Seq<char>, PropertyView)>>,
) -> ChangeDelta {
    match (o, n) {
        (Some(om), Some(nm)) => properties_added_diff(om, nm, sp).followed_by(
            properties_removed_diff(om, nm, sp),
        ),
        (None, Some(nm)) => ChangeDelta::one_addition(
            addition_at(sp + "/properties"@, ChangeValueView::PropertyMap(nm)),
        ),
        (Some(om), None) => ChangeDelta::one_deletion(
            deletion_at(sp + "/properties"@, ChangeValueView::PropertyMap(om)),
        ),
        (None, None) => ChangeDelta::empty(),
    }
}

/// The path of the schema named `k`.
pub open spec fn schema_path(k: Seq<char>) -> Seq<char> {
    "/schemas/"@ + k
}

/// What comparing one matched schema contributes: same variant on both sides
/// compares type tag, id and properties (and, for enumerations, the value and
/// description sequences as wholes); different variants is one modification
/// carrying both full schemas.
pub open spec fn schema_matched_diff(k: Seq<char>, o: SchemaView, n: SchemaView) -> ChangeDelta {
    let p = schema_path(k);
    match (o, n) {
        (SchemaView::Object(oo), SchemaView::Object(no)) => spec_field_diff(
            p + "/type"@,
            ostr(oo.schema_type),
            ostr(no.schema_type),
        ).followed_by(spec_field_diff(p + "/id"@, ostr(oo.id), ostr(no.id))).followed_by(
            properties_diff(p, oo.properties, no.properties),
        ),
        (SchemaView::Enum(oe), SchemaView::Enum(ne)) => spec_field_diff(
            p + "/type"@,
            ostr(oe.schema_type),
            ostr(ne.schema_type),
        ).followed_by(spec_field_diff(p + "/id"@, ostr(oe.id), ostr(ne.id))).followed_by(
            properties_diff(p, oe.properties, ne.properties),
        ).followed_by(
            spec_field_diff(
                p + "/enumeration"@,
                Some(ChangeValueView::StrList(oe.enumeration)),
                Some(ChangeValueView::StrList(ne.enumeration)),
            ),
        ).followed_by(
            spec_field_diff(
                p + "/enumDescriptions"@,
                ostr_list(oe.enum_descriptions),
                ostr_list(ne.enum_descriptions),
            ),
        ),
        _ => ChangeDelta::one_modification(
            modification_at(p, ChangeValueView::Schema(o), ChangeValueView::Schema(n)),
        ),
    }
}

/// What scanning the new schema map contributes.
pub open spec fn schemas_added_diff(
    om: Seq<(Seq<char>, SchemaView)>,
    nm: Seq<(Seq<char>, SchemaView)>,
) -> ChangeDelta
    decreases nm.len(),
{
    if nm.len() == 0 {
        ChangeDelta::empty()
    } else {
        let k = nm.last().0;
        let ns = nm.last().1;
        let step = match assoc_get(om, k) {
            Some(os) => schema_matched_diff(k, os, ns),
            None => ChangeDelta::one_addition(
                addition_at(schema_path(k), ChangeValueView::Schema(ns)),
            ),
        };
        schemas_added_diff(om, nm.drop_last()).followed_by(step)
    }
}

/// What scanning the old schema map contributes: one deletion carrying the
/// whole old schema per key absent from the new map.
pub open spec fn schemas_removed_diff(
    om: Seq<(Seq<char>, SchemaView)>,
    nm: Seq<(Seq<char>, SchemaView)>,
) -> ChangeDelta
    decreases om.len(),
{
    if om.len() == 0 {
        ChangeDelta::empty()
    } else {
        let k = om.last().0;
        let os = om.last().1;
        let step = if assoc_contains(nm, k) {
            ChangeDelta::empty()
        } else {
            ChangeDelta::one_deletion(deletion_at(schema_path(k), ChangeValueView::Schema(os)))
        };
        schemas_removed_diff(om.drop_last(), nm).followed_by(step)
    }
}

/// What comparing two optional schema maps contributes.  Whole-map changes
/// carry the map on both the addition and the deletion side.
pub open spec fn schemas_diff(
    o: Option<Seq<(Seq<char>, SchemaView)>>,
    n: Option<Seq<(Seq<char>, SchemaView)>>,
) -> ChangeDelta {
    match (o, n) {
        (Some(om), Some(nm)) => schemas_added_diff(om, nm).followed_by(
            schemas_removed_diff(om, nm),
        ),
        (None, Some(nm)) => ChangeDelta::one_addition(
            addition_at("/schemas"@, ChangeValueView::SchemaMap(nm)),
        ),
        (Some(om), None) => ChangeDelta::one_deletion(
            deletion_at("/schemas"@, ChangeValueView::SchemaMap(om)),
        ),
        (None, None) => ChangeDelta::empty(),
    }
}

/// The path of the resource named `k`.
pub open spec fn resource_path(k: Seq<char>) -> Seq<char> {
    "/resources/"@ + k
}

/// What scanning the new resource map contributes.
pub open spec fn resources_added_diff(
    om: Seq<(Seq<char>, ResourceView)>,
    nm: Seq<(Seq<char>, ResourceView)>,
) -> ChangeDelta
    decreases nm.len(),
{
    if nm.len() == 0 {
        ChangeDelta::empty()
    } else {
        let k = nm.last().0;
        let nr = nm.last().1;
        let step = match assoc_get(om, k) {
            Some(or) => methods_diff(resource_path(k), or.methods, nr.methods),
            None => ChangeDelta::one_addition(
                addition_at(resource_path(k), ChangeValueView::Resource(nr)),
            ),
        };
        resources_added_diff(om, nm.drop_last()).followed_by(step)
    }
}

/// What scanning the old resource map contributes: one payload-free deletion
/// per key absent from the new map.
pub open spec fn resources_removed_diff(
    om: Seq<(Seq<char>, ResourceView)>,
    nm: Seq<(Seq<char>, ResourceView)>,
) -> ChangeDelta
    decreases om.len(),
{
    if om.len() == 0 {
        ChangeDelta::empty()
    } else {
        let k = om.last().0;
        let step = if assoc_contains(nm, k) {
            ChangeDelta::empty()
        } else {
            ChangeDelta::one_deletion(bare_deletion_at(resource_path(k)))
        };
        resources_removed_diff(om.drop_last(), nm).followed_by(step)
    }
}

/// What comparing two optional resource maps contributes.  A whole map only
/// on the new side is one addition carrying it; a whole map only on the old
/// side is one deletion with no payload.
pub open spec fn resources_diff(
    o: Option<Seq<(Seq<char>, ResourceView)>>,
    n: Option<Seq<(Seq<char>, ResourceView)>>,
) -> ChangeDelta {
    match (o, n) {
        (Some(om), Some(nm)) => resources_added_diff(om, nm).followed_by(
            resources_removed_diff(om, nm),
        ),
        (None, Some(nm)) => ChangeDelta::one_addition(
            addition_at("/resources"@, ChangeValueView::ResourceMap(nm)),
        ),
        (Some(om), None) => ChangeDelta::one_deletion(bare_deletion_at("/resources"@)),
        (None, None) => ChangeDelta::empty(),
    }
}

/// The exact outcome of one diff invocation: the top-level scalar fields,
/// then the schema map, then the resource map.
pub open spec fn spec_diff(o: DocumentView, n: DocumentView, service: Seq<char>) -> ChangeSetView {
    let d = doc_top_diff(o, n).followed_by(schemas_diff(o.schemas, n.schemas)).followed_by(
        resources_diff(o.resources, n.resources),
    );
    ChangeSetView {
        service,
        modifications: d.modifications,
        additions: d.additions,
        deletions: d.deletions,
    }
}

/// What comparing the seven top-level scalar fields contributes.
pub open spec fn doc_top_diff(o: DocumentView, n: DocumentView) -> ChangeDelta {
    spec_field_diff("description"@, ostr(o.description), ostr(n.description)).followed_by(
        spec_field_diff("title"@, ostr(o.title), ostr(n.title)),
    ).followed_by(
        spec_field_diff(
            "discoveryVersion"@,
            ostr(o.discovery_version),
            ostr(n.discovery_version),
        ),
    ).followed_by(spec_field_diff("revision"@, ostr(o.revision), ostr(n.revision))).followed_by(
        spec_field_diff("ownerDomain"@, ostr(o.owner_domain), ostr(n.owner_domain)),
    ).followed_by(spec_field_diff("baseUrl"@, ostr(o.base_url), ostr(n.base_url))).followed_by(
        spec_field_diff(
            "documentationLink"@,
            ostr(o.documentation_link),
            ostr(n.documentation_link),
        ),
    )
}

} // verus!
