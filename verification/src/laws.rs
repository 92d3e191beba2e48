//! Laws of the library, stated and proved over the same spec functions the
//! executable contracts use: what the differ yields on equal documents, on a
//! field added or removed, on a schema-map key added, on a changed
//! enumeration, and on a removed resource; how listing pages compose; that a
//! logged record comes back under its key; and when the classifier fires.

use vstd::prelude::*;
use crate::change::{
    addition_at, bare_deletion_at, deletion_at, modification_at, ChangeDelta, ChangeSetView,
    ChangeView,
};
use crate::change_logger::{
    sorted_desc, spec_find_record, spec_log_insert, spec_logged_change, spec_page,
    unique_record_keys, LoggedChangeView,
};
use crate::classify::{is_method_addition, spec_has_new_method, spec_tags};
use crate::diff_engine::{
    doc_top_diff, method_fields_diff, method_path, methods_added_diff, methods_diff,
    methods_removed_diff, oflag, oreq, oresp, ostr, ostr_list, parameter_fields_diff,
    parameter_path, parameters_added_diff, parameters_diff, parameters_removed_diff,
    properties_added_diff, properties_diff, properties_removed_diff, property_fields_diff,
    property_path, resource_path, resources_added_diff, resources_diff, resources_removed_diff,
    schema_matched_diff, schema_path, schemas_added_diff, schemas_diff, schemas_removed_diff,
    spec_diff, spec_field_diff,
};
use crate::document::{
    DocumentView, EnumSchemaView, MethodView, ParameterView, PropertyView, ResourceView,
    SchemaView,
};
use crate::keymap::{assoc_contains, assoc_get, lemma_assoc_get_unique, unique_keys};
use crate::text::{split_slash, split_slash_from};
use crate::value::ChangeValueView;

verus! {

// ---------------------------------------------------------------------------
// Composition of empty deltas
// ---------------------------------------------------------------------------

proof fn lemma_empty_chain(a: ChangeDelta, b: ChangeDelta)
    requires
        a.is_empty(),
        b.is_empty(),
    ensures
        a.followed_by(b).is_empty(),
{
    assert(a.followed_by(b) =~= ChangeDelta::empty());
}

proof fn lemma_field_self(p: Seq<char>, o: Option<ChangeValueView>)
    ensures
        spec_field_diff(p, o, o).is_empty(),
{
    assert(spec_field_diff(p, o, o) =~= ChangeDelta::empty());
}

// ---------------------------------------------------------------------------
// Comparing a well-formed structure with itself yields nothing
// ---------------------------------------------------------------------------

proof fn lemma_parameter_fields_self(p: Seq<char>, v: ParameterView)
    ensures
        parameter_fields_diff(p, v, v).is_empty(),
{
    lemma_field_self(p + "/type"@, ostr(v.param_type));
    lemma_field_self(p + "/description"@, ostr(v.description));
    lemma_field_self(p + "/required"@, oflag(v.required));
    lemma_field_self(p + "/location"@, ostr(v.location));
    assert(parameter_fields_diff(p, v, v) =~= ChangeDelta::empty());
}

proof fn lemma_parameters_added_sub(
    om: Seq<(Seq<char>, ParameterView)>,
    nm: Seq<(Seq<char>, ParameterView)>,
    mp: Seq<char>,
)
    requires
        forall|i: int|
            0 <= i < nm.len() ==> assoc_get(om, (#[trigger] nm[i]).0) == Some(nm[i].1),
    ensures
        parameters_added_diff(om, nm, mp).is_empty(),
    decreases nm.len(),
{
    if nm.len() > 0 {
        assert(forall|i: int| 0 <= i < nm.len() - 1 ==> #[trigger] nm.drop_last()[i] == nm[i]);
        lemma_parameters_added_sub(om, nm.drop_last(), mp);
        assert(nm[nm.len() - 1] == nm.last());
        lemma_parameter_fields_self(parameter_path(mp, nm.last().0), nm.last().1);
        lemma_empty_chain(
            parameters_added_diff(om, nm.drop_last(), mp),
            parameter_fields_diff(parameter_path(mp, nm.last().0), nm.last().1, nm.last().1),
        );
    }
}

proof fn lemma_parameters_removed_sub(
    om: Seq<(Seq<char>, ParameterView)>,
    nm: Seq<(Seq<char>, ParameterView)>,
    mp: Seq<char>,
)
    requires
        forall|i: int| 0 <= i < om.len() ==> assoc_contains(nm, (#[trigger] om[i]).0),
    ensures
        parameters_removed_diff(om, nm, mp).is_empty(),
    decreases om.len(),
{
    if om.len() > 0 {
        assert(forall|i: int| 0 <= i < om.len() - 1 ==> #[trigger] om.drop_last()[i] == om[i]);
        lemma_parameters_removed_sub(om.drop_last(), nm, mp);
        assert(om[om.len() - 1] == om.last());
        lemma_empty_chain(parameters_removed_diff(om.drop_last(), nm, mp), ChangeDelta::empty());
    }
}

proof fn lemma_map_self_premises<V>(m: Seq<(Seq<char>, V)>)
    requires
        unique_keys(m),
    ensures
        forall|i: int| 0 <= i < m.len() ==> assoc_get(m, (#[trigger] m[i]).0) == Some(m[i].1),
        forall|i: int| 0 <= i < m.len() ==> assoc_contains(m, (#[trigger] m[i]).0),
{
    assert forall|i: int| 0 <= i < m.len() implies assoc_get(m, (#[trigger] m[i]).0) == Some(
        m[i].1,
    ) && assoc_contains(m, m[i].0) by {
        lemma_assoc_get_unique(m, i);
    }
}

proof fn lemma_parameters_self(
    mp: Seq<char>,
    o: Option<Seq<(Seq<char>, ParameterView)>>,
)
    requires
        match o {
            Some(m) => unique_keys(m),
            None => true,
        },
    ensures
        parameters_diff(mp, o, o).is_empty(),
{
    match o {
        Some(m) => {
            lemma_map_self_premises(m);
            lemma_parameters_added_sub(m, m, mp);
            lemma_parameters_removed_sub(m, m, mp);
            lemma_empty_chain(
                parameters_added_diff(m, m, mp),
                parameters_removed_diff(m, m, mp),
            );
        },
        None => {
            assert(parameters_diff(mp, o, o) =~= ChangeDelta::empty());
        },
    }
}

proof fn lemma_method_fields_self(p: Seq<char>, v: MethodView)
    requires
        v.wf(),
    ensures
        method_fields_diff(p, v, v).is_empty(),
{
    lemma_field_self(p + "/id"@, Some(ChangeValueView::Str(v.id)));
    lemma_field_self(p + "/path"@, Some(ChangeValueView::Str(v.path)));
    lemma_field_self(p + "/httpMethod"@, Some(ChangeValueView::Str(v.http_method)));
    lemma_field_self(p + "/description"@, ostr(v.description));
    lemma_parameters_self(p, v.parameters);
    lemma_field_self(p + "/request"@, oreq(v.request));
    lemma_field_self(p + "/response"@, oresp(v.response));
    lemma_field_self(p + "/scopes"@, ostr_list(v.scopes));
    assert(method_fields_diff(p, v, v) =~= ChangeDelta::empty());
}

proof fn lemma_methods_added_sub(
    om: Seq<(Seq<char>, MethodView)>,
    nm: Seq<(Seq<char>, MethodView)>,
    rp: Seq<char>,
)
    requires
        forall|i: int|
            0 <= i < nm.len() ==> assoc_get(om, (#[trigger] nm[i]).0) == Some(nm[i].1),
        forall|i: int| 0 <= i < nm.len() ==> (#[trigger] nm[i]).1.wf(),
    ensures
        methods_added_diff(om, nm, rp).is_empty(),
    decreases nm.len(),
{
    if nm.len() > 0 {
        assert(forall|i: int| 0 <= i < nm.len() - 1 ==> #[trigger] nm.drop_last()[i] == nm[i]);
        lemma_methods_added_sub(om, nm.drop_last(), rp);
        assert(nm[nm.len() - 1] == nm.last());
        lemma_method_fields_self(method_path(rp, nm.last().0), nm.last().1);
        lemma_empty_chain(
            methods_added_diff(om, nm.drop_last(), rp),
            method_fields_diff(method_path(rp, nm.last().0), nm.last().1, nm.last().1),
        );
    }
}

proof fn lemma_methods_removed_sub(
    om: Seq<(Seq<char>, MethodView)>,
    nm: Seq<(Seq<char>, MethodView)>,
    rp: Seq<char>,
)
    requires
        forall|i: int| 0 <= i < om.len() ==> assoc_contains(nm, (#[trigger] om[i]).0),
    ensures
        methods_removed_diff(om, nm, rp).is_empty(),
    decreases om.len(),
{
    if om.len() > 0 {
        assert(forall|i: int| 0 <= i < om.len() - 1 ==> #[trigger] om.drop_last()[i] == om[i]);
        lemma_methods_removed_sub(om.drop_last(), nm, rp);
        assert(om[om.len() - 1] == om.last());
        lemma_empty_chain(methods_removed_diff(om.drop_last(), nm, rp), ChangeDelta::empty());
    }
}

proof fn lemma_methods_self(rp: Seq<char>, o: Option<Seq<(Seq<char>, MethodView)>>)
    requires
        match o {
            Some(m) => unique_keys(m) && forall|i: int|
                0 <= i < m.len() ==> (#[trigger] m[i]).1.wf(),
            None => true,
        },
    ensures
        methods_diff(rp, o, o).is_empty(),
{
    match o {
        Some(m) => {
            lemma_map_self_premises(m);
            lemma_methods_added_sub(m, m, rp);
            lemma_methods_removed_sub(m, m, rp);
            lemma_empty_chain(methods_added_diff(m, m, rp), methods_removed_diff(m, m, rp));
        },
        None => {
            assert(methods_diff(rp, o, o) =~= ChangeDelta::empty());
        },
    }
}

proof fn lemma_property_fields_self(p: Seq<char>, v: PropertyView)
    ensures
        property_fields_diff(p, v, v).is_empty(),
{
    lemma_field_self(p + "/type"@, ostr(v.property_type));
    lemma_field_self(p + "/$ref"@, ostr(v.reference));
    lemma_field_self(p + "/format"@, ostr(v.format));
    lemma_field_self(p + "/description"@, ostr(v.description));
    assert(property_fields_diff(p, v, v) =~= ChangeDelta::empty());
}

proof fn lemma_properties_added_sub(
    om: Seq<(Seq<char>, PropertyView)>,
    nm: Seq<(Seq<char>, PropertyView)>,
    sp: Seq<char>,
)
    requires
        forall|i: int|
            0 <= i < nm.len() ==> assoc_get(om, (#[trigger] nm[i]).0) == Some(nm[i].1),
    ensures
        properties_added_diff(om, nm, sp).is_empty(),
    decreases nm.len(),
{
    if nm.len() > 0 {
        assert(forall|i: int| 0 <= i < nm.len() - 1 ==> #[trigger] nm.drop_last()[i] == nm[i]);
        lemma_properties_added_sub(om, nm.drop_last(), sp);
        assert(nm[nm.len() - 1] == nm.last());
        lemma_property_fields_self(property_path(sp, nm.last().0), nm.last().1);
        lemma_empty_chain(
            properties_added_diff(om, nm.drop_last(), sp),
            property_fields_diff(property_path(sp, nm.last().0), nm.last().1, nm.last().1),
        );
    }
}

proof fn lemma_properties_removed_sub(
    om: Seq<(Seq<char>, PropertyView)>,
    nm: Seq<(Seq<char>, PropertyView)>,
    sp: Seq<char>,
)
    requires
        forall|i: int| 0 <= i < om.len() ==> assoc_contains(nm, (#[trigger] om[i]).0),
    ensures
        properties_removed_diff(om, nm, sp).is_empty(),
    decreases om.len(),
{
    if om.len() > 0 {
        assert(forall|i: int| 0 <= i < om.len() - 1 ==> #[trigger] om.drop_last()[i] == om[i]);
        lemma_properties_removed_sub(om.drop_last(), nm, sp);
        assert(om[om.len() - 1] == om.last());
        lemma_empty_chain(properties_removed_diff(om.drop_last(), nm, sp), ChangeDelta::empty());
    }
}

proof fn lemma_properties_self(sp: Seq<char>, o: Option<Seq<(Seq<char>, PropertyView)>>)
    requires
        match o {
            Some(m) => unique_keys(m),
            None => true,
        },
    ensures
        properties_diff(sp, o, o).is_empty(),
{
    match o {
        Some(m) => {
            lemma_map_self_premises(m);
            lemma_properties_added_sub(m, m, sp);
            lemma_properties_removed_sub(m, m, sp);
            lemma_empty_chain(
                properties_added_diff(m, m, sp),
                properties_removed_diff(m, m, sp),
            );
        },
        None => {
            assert(properties_diff(sp, o, o) =~= ChangeDelta::empty());
        },
    }
}

proof fn lemma_schema_matched_self(k: Seq<char>, s: SchemaView)
    requires
        s.wf(),
    ensures
        schema_matched_diff(k, s, s).is_empty(),
{
    let p = schema_path(k);
    match s {
        SchemaView::Object(o) => {
            lemma_field_self(p + "/type"@, ostr(o.schema_type));
            lemma_field_self(p + "/id"@, ostr(o.id));
            lemma_properties_self(p, o.properties);
            assert(schema_matched_diff(k, s, s) =~= ChangeDelta::empty());
        },
        SchemaView::Enum(e) => {
            lemma_field_self(p + "/type"@, ostr(e.schema_type));
            lemma_field_self(p + "/id"@, ostr(e.id));
            lemma_properties_self(p, e.properties);
            lemma_field_self(p + "/enumeration"@, Some(ChangeValueView::StrList(e.enumeration)));
            lemma_field_self(p + "/enumDescriptions"@, ostr_list(e.enum_descriptions));
            assert(schema_matched_diff(k, s, s) =~= ChangeDelta::empty());
        },
    }
}

proof fn lemma_schemas_added_sub(
    om: Seq<(Seq<char>, SchemaView)>,
    nm: Seq<(Seq<char>, SchemaView)>,
)
    requires
        forall|i: int|
            0 <= i < nm.len() ==> assoc_get(om, (#[trigger] nm[i]).0) == Some(nm[i].1),
        forall|i: int| 0 <= i < nm.len() ==> (#[trigger] nm[i]).1.wf(),
    ensures
        schemas_added_diff(om, nm).is_empty(),
    decreases nm.len(),
{
    if nm.len() > 0 {
        assert(forall|i: int| 0 <= i < nm.len() - 1 ==> #[trigger] nm.drop_last()[i] == nm[i]);
        lemma_schemas_added_sub(om, nm.drop_last());
        assert(nm[nm.len() - 1] == nm.last());
        lemma_schema_matched_self(nm.last().0, nm.last().1);
        lemma_empty_chain(
            schemas_added_diff(om, nm.drop_last()),
            schema_matched_diff(nm.last().0, nm.last().1, nm.last().1),
        );
    }
}

proof fn lemma_schemas_removed_sub(
    om: Seq<(Seq<char>, SchemaView)>,
    nm: Seq<(Seq<char>, SchemaView)>,
)
    requires
        forall|i: int| 0 <= i < om.len() ==> assoc_contains(nm, (#[trigger] om[i]).0),
    ensures
        schemas_removed_diff(om, nm).is_empty(),
    decreases om.len(),
{
    if om.len() > 0 {
        assert(forall|i: int| 0 <= i < om.len() - 1 ==> #[trigger] om.drop_last()[i] == om[i]);
        lemma_schemas_removed_sub(om.drop_last(), nm);
        assert(om[om.len() - 1] == om.last());
        lemma_empty_chain(schemas_removed_diff(om.drop_last(), nm), ChangeDelta::empty());
    }
}

proof fn lemma_schemas_self(o: Option<Seq<(Seq<char>, SchemaView)>>)
    requires
        match o {
            Some(m) => unique_keys(m) && forall|i: int|
                0 <= i < m.len() ==> (#[trigger] m[i]).1.wf(),
            None => true,
        },
    ensures
        schemas_diff(o, o).is_empty(),
{
    match o {
        Some(m) => {
            lemma_map_self_premises(m);
            lemma_schemas_added_sub(m, m);
            lemma_schemas_removed_sub(m, m);
            lemma_empty_chain(schemas_added_diff(m, m), schemas_removed_diff(m, m));
        },
        None => {
            assert(schemas_diff(o, o) =~= ChangeDelta::empty());
        },
    }
}

proof fn lemma_resources_added_sub(
    om: Seq<(Seq<char>, ResourceView)>,
    nm: Seq<(Seq<char>, ResourceView)>,
)
    requires
        forall|i: int|
            0 <= i < nm.len() ==> assoc_get(om, (#[trigger] nm[i]).0) == Some(nm[i].1),
        forall|i: int| 0 <= i < nm.len() ==> (#[trigger] nm[i]).1.wf(),
    ensures
        resources_added_diff(om, nm).is_empty(),
    decreases nm.len(),
{
    if nm.len() > 0 {
        assert(forall|i: int| 0 <= i < nm.len() - 1 ==> #[trigger] nm.drop_last()[i] == nm[i]);
        lemma_resources_added_sub(om, nm.drop_last());
        assert(nm[nm.len() - 1] == nm.last());
        lemma_methods_self(resource_path(nm.last().0), nm.last().1.methods);
        lemma_empty_chain(
            resources_added_diff(om, nm.drop_last()),
            methods_diff(resource_path(nm.last().0), nm.last().1.methods, nm.last().1.methods),
        );
    }
}

proof fn lemma_resources_removed_sub(
    om: Seq<(Seq<char>, ResourceView)>,
    nm: Seq<(Seq<char>, ResourceView)>,
)
    requires
        forall|i: int| 0 <= i < om.len() ==> assoc_contains(nm, (#[trigger] om[i]).0),
    ensures
        resources_removed_diff(om, nm).is_empty(),
    decreases om.len(),
{
    if om.len() > 0 {
        assert(forall|i: int| 0 <= i < om.len() - 1 ==> #[trigger] om.drop_last()[i] == om[i]);
        lemma_resources_removed_sub(om.drop_last(), nm);
        assert(om[om.len() - 1] == om.last());
        lemma_empty_chain(resources_removed_diff(om.drop_last(), nm), ChangeDelta::empty());
    }
}

proof fn lemma_resources_self(o: Option<Seq<(Seq<char>, ResourceView)>>)
    requires
        match o {
            Some(m) => unique_keys(m) && forall|i: int|
                0 <= i < m.len() ==> (#[trigger] m[i]).1.wf(),
            None => true,
        },
    ensures
        resources_diff(o, o).is_empty(),
{
    match o {
        Some(m) => {
            lemma_map_self_premises(m);
            lemma_resources_added_sub(m, m);
            lemma_resources_removed_sub(m, m);
            lemma_empty_chain(resources_added_diff(m, m), resources_removed_diff(m, m));
        },
        None => {
            assert(resources_diff(o, o) =~= ChangeDelta::empty());
        },
    }
}

proof fn lemma_doc_top_self(a: DocumentView)
    ensures
        doc_top_diff(a, a).is_empty(),
{
    lemma_field_self("description"@, ostr(a.description));
    lemma_field_self("title"@, ostr(a.title));
    lemma_field_self("discoveryVersion"@, ostr(a.discovery_version));
    lemma_field_self("revision"@, ostr(a.revision));
    lemma_field_self("ownerDomain"@, ostr(a.owner_domain));
    lemma_field_self("baseUrl"@, ostr(a.base_url));
    lemma_field_self("documentationLink"@, ostr(a.documentation_link));
    assert(doc_top_diff(a, a) =~= ChangeDelta::empty());
}

/// Symmetry: diffing any well-formed document against itself yields an empty
/// change set, for every service id.
pub proof fn lemma_diff_symmetry(a: DocumentView, service: Seq<char>)
    requires
        a.wf(),
    ensures
        spec_diff(a, a, service).modifications == Seq::<ChangeView>::empty(),
        spec_diff(a, a, service).additions == Seq::<ChangeView>::empty(),
        spec_diff(a, a, service).deletions == Seq::<ChangeView>::empty(),
        spec_diff(a, a, service).service == service,
{
    lemma_doc_top_self(a);
    lemma_schemas_self(a.schemas);
    lemma_resources_self(a.resources);
    let d = doc_top_diff(a, a).followed_by(schemas_diff(a.schemas, a.schemas)).followed_by(
        resources_diff(a.resources, a.resources),
    );
    assert(d.modifications =~= Seq::<ChangeView>::empty());
    assert(d.additions =~= Seq::<ChangeView>::empty());
    assert(d.deletions =~= Seq::<ChangeView>::empty());
}

// ---------------------------------------------------------------------------
// Add/remove duality of the top-level scalar fields
// ---------------------------------------------------------------------------

/// One of the seven named top-level scalar fields.
pub enum TopField {
    Description,
    Title,
    DiscoveryVersion,
    Revision,
    OwnerDomain,
    BaseUrl,
    DocumentationLink,
}

/// The value a document holds in the given field.
pub open spec fn top_field_value(d: DocumentView, f: TopField) -> Option<Seq<char>> {
    match f {
        TopField::Description => d.description,
        TopField::Title => d.title,
        TopField::DiscoveryVersion => d.discovery_version,
        TopField::Revision => d.revision,
        TopField::OwnerDomain => d.owner_domain,
        TopField::BaseUrl => d.base_url,
        TopField::DocumentationLink => d.documentation_link,
    }
}

/// The bare name a top-level field is addressed by: no leading slash, unlike
/// every nested path.
pub open spec fn top_field_name(f: TopField) -> Seq<char> {
    match f {
        TopField::Description => "description"@,
        TopField::Title => "title"@,
        TopField::DiscoveryVersion => "discoveryVersion"@,
        TopField::Revision => "revision"@,
        TopField::OwnerDomain => "ownerDomain"@,
        TopField::BaseUrl => "baseUrl"@,
        TopField::DocumentationLink => "documentationLink"@,
    }
}

/// The document with the given field replaced.
pub open spec fn with_top_field(d: DocumentView, f: TopField, v: Option<Seq<char>>) -> DocumentView {
    match f {
        TopField::Description => DocumentView { description: v, ..d },
        TopField::Title => DocumentView { title: v, ..d },
        TopField::DiscoveryVersion => DocumentView { discovery_version: v, ..d },
        TopField::Revision => DocumentView { revision: v, ..d },
        TopField::OwnerDomain => DocumentView { owner_domain: v, ..d },
        TopField::BaseUrl => DocumentView { base_url: v, ..d },
        TopField::DocumentationLink => DocumentView { documentation_link: v, ..d },
    }
}

/// Add/remove duality: when the new document is the old one plus a value in
/// one previously absent top-level scalar field, the diff is exactly one
/// addition at that field's bare name; diffed the other way round, exactly
/// one deletion there carrying the value.
#[verifier::rlimit(60)]
pub proof fn lemma_add_remove_duality(
    a: DocumentView,
    f: TopField,
    v: Seq<char>,
    service: Seq<char>,
)
    requires
        a.wf(),
        top_field_value(a, f) is None,
    ensures
        spec_diff(a, with_top_field(a, f, Some(v)), service).additions == seq![
            addition_at(top_field_name(f), ChangeValueView::Str(v)),
        ],
        spec_diff(a, with_top_field(a, f, Some(v)), service).modifications == Seq::<
            ChangeView,
        >::empty(),
        spec_diff(a, with_top_field(a, f, Some(v)), service).deletions == Seq::<
            ChangeView,
        >::empty(),
        spec_diff(with_top_field(a, f, Some(v)), a, service).deletions == seq![
            deletion_at(top_field_name(f), ChangeValueView::Str(v)),
        ],
        spec_diff(with_top_field(a, f, Some(v)), a, service).modifications == Seq::<
            ChangeView,
        >::empty(),
        spec_diff(with_top_field(a, f, Some(v)), a, service).additions == Seq::<
            ChangeView,
        >::empty(),
{
    let b = with_top_field(a, f, Some(v));
    lemma_schemas_self(a.schemas);
    lemma_resources_self(a.resources);
    let add = addition_at(top_field_name(f), ChangeValueView::Str(v));
    let del = deletion_at(top_field_name(f), ChangeValueView::Str(v));
    match f {
        TopField::Description => {
            assert(doc_top_diff(a, b).additions =~= seq![add]);
            assert(doc_top_diff(a, b).modifications =~= Seq::<ChangeView>::empty());
            assert(doc_top_diff(a, b).deletions =~= Seq::<ChangeView>::empty());
            assert(doc_top_diff(b, a).deletions =~= seq![del]);
            assert(doc_top_diff(b, a).modifications =~= Seq::<ChangeView>::empty());
            assert(doc_top_diff(b, a).additions =~= Seq::<ChangeView>::empty());
        },
        TopField::Title => {
            assert(doc_top_diff(a, b).additions =~= seq![add]);
            assert(doc_top_diff(a, b).modifications =~= Seq::<ChangeView>::empty());
            assert(doc_top_diff(a, b).deletions =~= Seq::<ChangeView>::empty());
            assert(doc_top_diff(b, a).deletions =~= seq![del]);
            assert(doc_top_diff(b, a).modifications =~= Seq::<ChangeView>::empty());
            assert(doc_top_diff(b, a).additions =~= Seq::<ChangeView>::empty());
        },
        TopField::DiscoveryVersion => {
            assert(doc_top_diff(a, b).additions =~= seq![add]);
            assert(doc_top_diff(a, b).modifications =~= Seq::<ChangeView>::empty());
            assert(doc_top_diff(a, b).deletions =~= Seq::<ChangeView>::empty());
            assert(doc_top_diff(b, a).deletions =~= seq![del]);
            assert(doc_top_diff(b, a).modifications =~= Seq::<ChangeView>::empty());
            assert(doc_top_diff(b, a).additions =~= Seq::<ChangeView>::empty());
        },
        TopField::Revision => {
            assert(doc_top_diff(a, b).additions =~= seq![add]);
            assert(doc_top_diff(a, b).modifications =~= Seq::<ChangeView>::empty());
            assert(doc_top_diff(a, b).deletions =~= Seq::<ChangeView>::empty());
            assert(doc_top_diff(b, a).deletions =~= seq![del]);
            assert(doc_top_diff(b, a).modifications =~= Seq::<ChangeView>::empty());
            assert(doc_top_diff(b, a).additions =~= Seq::<ChangeView>::empty());
        },
        TopField::OwnerDomain => {
            assert(doc_top_diff(a, b).additions =~= seq![add]);
            assert(doc_top_diff(a, b).modifications =~= Seq::<ChangeView>::empty());
            assert(doc_top_diff(a, b).deletions =~= Seq::<ChangeView>::empty());
            assert(doc_top_diff(b, a).deletions =~= seq![del]);
            assert(doc_top_diff(b, a).modifications =~= Seq::<ChangeView>::empty());
            assert(doc_top_diff(b, a).additions =~= Seq::<ChangeView>::empty());
        },
        TopField::BaseUrl => {
            assert(doc_top_diff(a, b).additions =~= seq![add]);
            assert(doc_top_diff(a, b).modifications =~= Seq::<ChangeView>::empty());
            assert(doc_top_diff(a, b).deletions =~= Seq::<ChangeView>::empty());
            assert(doc_top_diff(b, a).deletions =~= seq![del]);
            assert(doc_top_diff(b, a).modifications =~= Seq::<ChangeView>::empty());
            assert(doc_top_diff(b, a).additions =~= Seq::<ChangeView>::empty());
        },
        TopField::DocumentationLink => {
            assert(doc_top_diff(a, b).additions =~= seq![add]);
            assert(doc_top_diff(a, b).modifications =~= Seq::<ChangeView>::empty());
            assert(doc_top_diff(a, b).deletions =~= Seq::<ChangeView>::empty());
            assert(doc_top_diff(b, a).deletions =~= seq![del]);
            assert(doc_top_diff(b, a).modifications =~= Seq::<ChangeView>::empty());
            assert(doc_top_diff(b, a).additions =~= Seq::<ChangeView>::empty());
        },
    }
    assert(b.schemas == a.schemas && b.resources == a.resources);
    assert(spec_diff(a, b, service).additions =~= seq![add]);
    assert(spec_diff(a, b, service).modifications =~= Seq::<ChangeView>::empty());
    assert(spec_diff(a, b, service).deletions =~= Seq::<ChangeView>::empty());
    assert(spec_diff(b, a, service).deletions =~= seq![del]);
    assert(spec_diff(b, a, service).modifications =~= Seq::<ChangeView>::empty());
    assert(spec_diff(b, a, service).additions =~= Seq::<ChangeView>::empty());
}

// ---------------------------------------------------------------------------
// Map-key coverage
// ---------------------------------------------------------------------------

/// Map-key coverage: diffing a one-schema map against the same map plus a
/// second key yields exactly one addition at the new key's path, carrying the
/// whole new schema.
pub proof fn lemma_map_key_coverage(k1: Seq<char>, k2: Seq<char>, s1: SchemaView, s2: SchemaView)
    requires
        k1 != k2,
        s1.wf(),
    ensures
        schemas_diff(Some(seq![(k1, s1)]), Some(seq![(k1, s1), (k2, s2)])).additions == seq![
            addition_at(schema_path(k2), ChangeValueView::Schema(s2)),
        ],
        schemas_diff(Some(seq![(k1, s1)]), Some(seq![(k1, s1), (k2, s2)])).modifications == Seq::<
            ChangeView,
        >::empty(),
        schemas_diff(Some(seq![(k1, s1)]), Some(seq![(k1, s1), (k2, s2)])).deletions == Seq::<
            ChangeView,
        >::empty(),
{
    let om = seq![(k1, s1)];
    let nm = seq![(k1, s1), (k2, s2)];
    // Looking up the two keys in the old map.
    assert(om[0] == (k1, s1));
    assert(assoc_get(om, k1) == Some(s1));
    assert(assoc_get(om, k2) is None) by {
        assert(forall|j: int| 0 <= j < om.len() ==> (#[trigger] om[j]).0 != k2);
        crate::keymap::lemma_assoc_get_of_no_match(om, k2);
    }
    // The scan of the new map: the shared key compares equal, the new key is
    // one addition.
    assert(nm.drop_last() =~= om);
    assert(nm.last() == (k2, s2));
    assert(om.drop_last() =~= Seq::<(Seq<char>, SchemaView)>::empty());
    assert(om.last() == (k1, s1));
    lemma_schema_matched_self(k1, s1);
    let inner = schemas_added_diff(om, om);
    assert(schemas_added_diff(om, om.drop_last()) == ChangeDelta::empty()) by {
        assert(schemas_added_diff(om, Seq::<(Seq<char>, SchemaView)>::empty())
            == ChangeDelta::empty());
    }
    assert(inner == ChangeDelta::empty().followed_by(schema_matched_diff(k1, s1, s1)));
    assert(inner.is_empty()) by {
        lemma_empty_chain(ChangeDelta::empty(), schema_matched_diff(k1, s1, s1));
    }
    let added = schemas_added_diff(om, nm);
    assert(added == inner.followed_by(
        ChangeDelta::one_addition(addition_at(schema_path(k2), ChangeValueView::Schema(s2))),
    ));
    // The scan of the old map: its one key is still present.
    assert(assoc_contains(nm, k1)) by {
        assert(nm[0].0 == k1);
    }
    let removed = schemas_removed_diff(om, nm);
    assert(schemas_removed_diff(om.drop_last(), nm) == ChangeDelta::empty()) by {
        assert(schemas_removed_diff(Seq::<(Seq<char>, SchemaView)>::empty(), nm)
            == ChangeDelta::empty());
    }
    assert(removed == ChangeDelta::empty().followed_by(ChangeDelta::empty()));
    let d = schemas_diff(Some(om), Some(nm));
    assert(d.additions =~= seq![addition_at(schema_path(k2), ChangeValueView::Schema(s2))]);
    assert(d.modifications =~= Seq::<ChangeView>::empty());
    assert(d.deletions =~= Seq::<ChangeView>::empty());
}

// ---------------------------------------------------------------------------
// Enumeration sequence atomicity
// ---------------------------------------------------------------------------

/// Enumeration atomicity: two enumeration schemas that agree everywhere but
/// in their value sequences compare as exactly one modification at the
/// schema's `enumeration` path, carrying both full sequences — never a
/// per-element diff.
pub proof fn lemma_enum_sequence_atomicity(k: Seq<char>, oe: EnumSchemaView, ne: EnumSchemaView)
    requires
        oe.schema_type == ne.schema_type,
        oe.id == ne.id,
        oe.properties == ne.properties,
        oe.enum_descriptions == ne.enum_descriptions,
        oe.enumeration != ne.enumeration,
        SchemaView::Enum(oe).wf(),
    ensures
        schema_matched_diff(k, SchemaView::Enum(oe), SchemaView::Enum(ne)).modifications == seq![
            modification_at(
                schema_path(k) + "/enumeration"@,
                ChangeValueView::StrList(oe.enumeration),
                ChangeValueView::StrList(ne.enumeration),
            ),
        ],
        schema_matched_diff(k, SchemaView::Enum(oe), SchemaView::Enum(ne)).additions == Seq::<
            ChangeView,
        >::empty(),
        schema_matched_diff(k, SchemaView::Enum(oe), SchemaView::Enum(ne)).deletions == Seq::<
            ChangeView,
        >::empty(),
{
    let p = schema_path(k);
    lemma_field_self(p + "/type"@, ostr(oe.schema_type));
    lemma_field_self(p + "/id"@, ostr(oe.id));
    lemma_properties_self(p, oe.properties);
    lemma_field_self(p + "/enumDescriptions"@, ostr_list(oe.enum_descriptions));
    let d = schema_matched_diff(k, SchemaView::Enum(oe), SchemaView::Enum(ne));
    assert(d.modifications =~= seq![
        modification_at(
            p + "/enumeration"@,
            ChangeValueView::StrList(oe.enumeration),
            ChangeValueView::StrList(ne.enumeration),
        ),
    ]);
    assert(d.additions =~= Seq::<ChangeView>::empty());
    assert(d.deletions =~= Seq::<ChangeView>::empty());
}

// ---------------------------------------------------------------------------
// Resource deletion payload asymmetry
// ---------------------------------------------------------------------------

proof fn lemma_resources_removed_one(
    om: Seq<(Seq<char>, ResourceView)>,
    nm: Seq<(Seq<char>, ResourceView)>,
    t: int,
)
    requires
        0 <= t < om.len(),
        forall|j: int|
            0 <= j < om.len() && j != t ==> assoc_contains(nm, (#[trigger] om[j]).0),
        !assoc_contains(nm, om[t].0),
    ensures
        resources_removed_diff(om, nm).deletions == seq![bare_deletion_at(resource_path(om[t].0))],
        resources_removed_diff(om, nm).additions == Seq::<ChangeView>::empty(),
        resources_removed_diff(om, nm).modifications == Seq::<ChangeView>::empty(),
    decreases om.len(),
{
    assert(forall|i: int| 0 <= i < om.len() - 1 ==> #[trigger] om.drop_last()[i] == om[i]);
    assert(om[om.len() - 1] == om.last());
    if t == om.len() - 1 {
        lemma_resources_removed_sub(om.drop_last(), nm);
        let d = resources_removed_diff(om, nm);
        assert(d.deletions =~= seq![bare_deletion_at(resource_path(om[t].0))]);
        assert(d.additions =~= Seq::<ChangeView>::empty());
        assert(d.modifications =~= Seq::<ChangeView>::empty());
    } else {
        lemma_resources_removed_one(om.drop_last(), nm, t);
        assert(assoc_contains(nm, om.last().0));
        let d = resources_removed_diff(om, nm);
        assert(d.deletions =~= seq![bare_deletion_at(resource_path(om[t].0))]);
        assert(d.additions =~= Seq::<ChangeView>::empty());
        assert(d.modifications =~= Seq::<ChangeView>::empty());
    }
}

/// Resource deletion payload asymmetry: removing one whole resource from the
/// map yields exactly one deletion at `/resources/{key}` carrying no value,
/// no old value and no new value.
pub proof fn lemma_resource_deletion_asymmetry(om: Seq<(Seq<char>, ResourceView)>, t: int)
    requires
        unique_keys(om),
        0 <= t < om.len(),
        forall|i: int| 0 <= i < om.len() ==> (#[trigger] om[i]).1.wf(),
    ensures
        resources_diff(Some(om), Some(om.remove(t))).deletions == seq![
            bare_deletion_at(resource_path(om[t].0)),
        ],
        resources_diff(Some(om), Some(om.remove(t))).additions == Seq::<ChangeView>::empty(),
        resources_diff(Some(om), Some(om.remove(t))).modifications == Seq::<ChangeView>::empty(),
{
    let nm = om.remove(t);
    om.remove_ensures(t);
    // Every entry of the new map is an entry of the old map under the same
    // key, found there by the lookup.
    assert forall|i: int| 0 <= i < nm.len() implies assoc_get(om, (#[trigger] nm[i]).0) == Some(
        nm[i].1,
    ) && nm[i].1.wf() by {
        let si = if i < t {
            i
        } else {
            i + 1
        };
        assert(nm[i] == om[si]);
        lemma_assoc_get_unique(om, si);
    }
    lemma_resources_added_sub(om, nm);
    // Every old key but the removed one is still present; the removed one is
    // not, since keys are unique.
    assert forall|j: int| 0 <= j < om.len() && j != t implies assoc_contains(
        nm,
        (#[trigger] om[j]).0,
    ) by {
        let ni = if j < t {
            j
        } else {
            j - 1
        };
        assert(nm[ni] == om[j]);
    }
    assert(!assoc_contains(nm, om[t].0)) by {
        if assoc_contains(nm, om[t].0) {
            let i = choose|i: int| 0 <= i < nm.len() && nm[i].0 == om[t].0;
            let si = if i < t {
                i
            } else {
                i + 1
            };
            assert(nm[i] == om[si]);
            assert(om[si].0 == om[t].0 && si != t);
        }
    }
    lemma_resources_removed_one(om, nm, t);
    let d = resources_diff(Some(om), Some(nm));
    assert(d.deletions =~= seq![bare_deletion_at(resource_path(om[t].0))]);
    assert(d.additions =~= Seq::<ChangeView>::empty());
    assert(d.modifications =~= Seq::<ChangeView>::empty());
}

// ---------------------------------------------------------------------------
// Pagination idempotence
// ---------------------------------------------------------------------------

/// Pagination idempotence: the first page of `n` records followed by the
/// next page of `m` is the one page of `n + m`; the slices stay
/// newest-first, and under unique keys they share no record.
pub proof fn lemma_pagination_idempotence(s: Seq<LoggedChangeView>, n: int, m: int)
    requires
        n >= 0,
        m >= 0,
    ensures
        spec_page(s, 0, n) + spec_page(s, n, m) == spec_page(s, 0, n + m),
        sorted_desc(s) ==> sorted_desc(spec_page(s, 0, n)) && sorted_desc(spec_page(s, n, m)),
        unique_record_keys(s) ==> forall|i: int, j: int|
            0 <= i < spec_page(s, 0, n).len() && 0 <= j < spec_page(s, n, m).len() ==> !((
            #[trigger] spec_page(s, 0, n)[i]).service == (#[trigger] spec_page(s, n, m)[j]).service
                && spec_page(s, 0, n)[i].timestamp == spec_page(s, n, m)[j].timestamp),
{
    let p1 = spec_page(s, 0, n);
    let p2 = spec_page(s, n, m);
    assert(p1 + p2 =~= spec_page(s, 0, n + m));
    let start2: int = if n <= s.len() {
        n
    } else {
        s.len() as int
    };
    assert(forall|i: int| 0 <= i < p1.len() ==> #[trigger] p1[i] == s[i]);
    assert(forall|j: int| 0 <= j < p2.len() ==> #[trigger] p2[j] == s[start2 + j]);
}

// ---------------------------------------------------------------------------
// Round trip through the change log
// ---------------------------------------------------------------------------

/// Round trip: the record built for a change set carries the set's sequence
/// lengths as its counts, and after logging it is found under its exact
/// `(service, timestamp)` key, equal to what was returned.
pub proof fn lemma_log_round_trip(
    records: Seq<LoggedChangeView>,
    cs: ChangeSetView,
    revision: Option<Seq<char>>,
    ts: u64,
)
    requires
        sorted_desc(records),
        unique_record_keys(records),
        cs.additions.len() <= usize::MAX,
        cs.modifications.len() <= usize::MAX,
        cs.deletions.len() <= usize::MAX,
    ensures
        spec_logged_change(cs, revision, ts).summary.additions == cs.additions.len(),
        spec_logged_change(cs, revision, ts).summary.modifications == cs.modifications.len(),
        spec_logged_change(cs, revision, ts).summary.deletions == cs.deletions.len(),
        spec_find_record(
            spec_log_insert(records, spec_logged_change(cs, revision, ts)),
            cs.service,
            ts,
        ) == Some(spec_logged_change(cs, revision, ts)),
{
    let r = spec_logged_change(cs, revision, ts);
    crate::change_logger::lemma_log_insert_props(records, r);
}

// ---------------------------------------------------------------------------
// Classifier precision
// ---------------------------------------------------------------------------

proof fn lemma_split_method_example()
    ensures
        split_slash("/resources/r/methods/m"@) =~= seq![""@, "resources"@, "r"@, "methods"@, "m"@],
{
    reveal_strlit("/resources/r/methods/m");
    reveal_strlit("");
    reveal_strlit("m");
    reveal_strlit("methods");
    reveal_strlit("r");
    reveal_strlit("resources");
    let s = "/resources/r/methods/m"@;
    assert(s.len() == 22);
    assert(s[0] == '/');
    assert(s[1] == 'r');
    assert(s[2] == 'e');
    assert(s[3] == 's');
    assert(s[4] == 'o');
    assert(s[5] == 'u');
    assert(s[6] == 'r');
    assert(s[7] == 'c');
    assert(s[8] == 'e');
    assert(s[9] == 's');
    assert(s[10] == '/');
    assert(s[11] == 'r');
    assert(s[12] == '/');
    assert(s[13] == 'm');
    assert(s[14] == 'e');
    assert(s[15] == 't');
    assert(s[16] == 'h');
    assert(s[17] == 'o');
    assert(s[18] == 'd');
    assert(s[19] == 's');
    assert(s[20] == '/');
    assert(s[21] == 'm');
    let ec = Seq::<char>::empty();
    let ep = Seq::<Seq<char>>::empty();
    assert(split_slash_from(s, 0, ep, ec) == split_slash_from(s, 1, ep.push(ec), ec));
    assert(split_slash_from(s, 1, ep.push(ec), ec) == split_slash_from(s, 2, ep.push(ec), ec.push('r')));
    assert(split_slash_from(s, 2, ep.push(ec), ec.push('r')) == split_slash_from(s, 3, ep.push(ec), ec.push('r').push('e')));
    assert(split_slash_from(s, 3, ep.push(ec), ec.push('r').push('e')) == split_slash_from(s, 4, ep.push(ec), ec.push('r').push('e').push('s')));
    assert(split_slash_from(s, 4, ep.push(ec), ec.push('r').push('e').push('s')) == split_slash_from(s, 5, ep.push(ec), ec.push('r').push('e').push('s').push('o')));
    assert(split_slash_from(s, 5, ep.push(ec), ec.push('r').push('e').push('s').push('o')) == split_slash_from(s, 6, ep.push(ec), ec.push('r').push('e').push('s').push('o').push('u')));
    assert(split_slash_from(s, 6, ep.push(ec), ec.push('r').push('e').push('s').push('o').push('u')) == split_slash_from(s, 7, ep.push(ec), ec.push('r').push('e').push('s').push('o').push('u').push('r')));
    assert(split_slash_from(s, 7, ep.push(ec), ec.push('r').push('e').push('s').push('o').push('u').push('r')) == split_slash_from(s, 8, ep.push(ec), ec.push('r').push('e').push('s').push('o').push('u').push('r').push('c')));
    assert(split_slash_from(s, 8, ep.push(ec), ec.push('r').push('e').push('s').push('o').push('u').push('r').push('c')) == split_slash_from(s, 9, ep.push(ec), ec.push('r').push('e').push('s').push('o').push('u').push('r').push('c').push('e')));
    assert(split_slash_from(s, 9, ep.push(ec), ec.push('r').push('e').push('s').push('o').push('u').push('r').push('c').push('e')) == split_slash_from(s, 10, ep.push(ec), ec.push('r').push('e').push('s').push('o').push('u').push('r').push('c').push('e').push('s')));
    assert(split_slash_from(s, 10, ep.push(ec), ec.push('r').push('e').push('s').push('o').push('u').push('r').push('c').push('e').push('s')) == split_slash_from(s, 11, ep.push(ec).push(ec.push('r').push('e').push('s').push('o').push('u').push('r').push('c').push('e').push('s')), ec));
    assert(split_slash_from(s, 11, ep.push(ec).push(ec.push('r').push('e').push('s').push('o').push('u').push('r').push('c').push('e').push('s')), ec) == split_slash_from(s, 12, ep.push(ec).push(ec.push('r').push('e').push('s').push('o').push('u').push('r').push('c').push('e').push('s')), ec.push('r')));
    assert(split_slash_from(s, 12, ep.push(ec).push(ec.push('r').push('e').push('s').push('o').push('u').push('r').push('c').push('e').push('s')), ec.push('r')) == split_slash_from(s, 13, ep.push(ec).push(ec.push('r').push('e').push('s').push('o').push('u').push('r').push('c').push('e').push('s')).push(ec.push('r')), ec));
    assert(split_slash_from(s, 13, ep.push(ec).push(ec.push('r').push('e').push('s').push('o').push('u').push('r').push('c').push('e').push('s')).push(ec.push('r')), ec) == split_slash_from(s, 14, ep.push(ec).push(ec.push('r').push('e').push('s').push('o').push('u').push('r').push('c').push('e').push('s')).push(ec.push('r')), ec.push('m')));
    assert(split_slash_from(s, 14, ep.push(ec).push(ec.push('r').push('e').push('s').push('o').push('u').push('r').push('c').push('e').push('s')).push(ec.push('r')), ec.push('m')) == split_slash_from(s, 15, ep.push(ec).push(ec.push('r').push('e').push('s').push('o').push('u').push('r').push('c').push('e').push('s')).push(ec.push('r')), ec.push('m').push('e')));
    assert(split_slash_from(s, 15, ep.push(ec).push(ec.push('r').push('e').push('s').push('o').push('u').push('r').push('c').push('e').push('s')).push(ec.push('r')), ec.push('m').push('e')) == split_slash_from(s, 16, ep.push(ec).push(ec.push('r').push('e').push('s').push('o').push('u').push('r').push('c').push('e').push('s')).push(ec.push('r')), ec.push('m').push('e').push('t')));
    assert(split_slash_from(s, 16, ep.push(ec).push(ec.push('r').push('e').push('s').push('o').push('u').push('r').push('c').push('e').push('s')).push(ec.push('r')), ec.push('m').push('e').push('t')) == split_slash_from(s, 17, ep.push(ec).push(ec.push('r').push('e').push('s').push('o').push('u').push('r').push('c').push('e').push('s')).push(ec.push('r')), ec.push('m').push('e').push('t').push('h')));
    assert(split_slash_from(s, 17, ep.push(ec).push(ec.push('r').push('e').push('s').push('o').push('u').push('r').push('c').push('e').push('s')).push(ec.push('r')), ec.push('m').push('e').push('t').push('h')) == split_slash_from(s, 18, ep.push(ec).push(ec.push('r').push('e').push('s').push('o').push('u').push('r').push('c').push('e').push('s')).push(ec.push('r')), ec.push('m').push('e').push('t').push('h').push('o')));
    assert(split_slash_from(s, 18, ep.push(ec).push(ec.push('r').push('e').push('s').push('o').push('u').push('r').push('c').push('e').push('s')).push(ec.push('r')), ec.push('m').push('e').push('t').push('h').push('o')) == split_slash_from(s, 19, ep.push(ec).push(ec.push('r').push('e').push('s').push('o').push('u').push('r').push('c').push('e').push('s')).push(ec.push('r')), ec.push('m').push('e').push('t').push('h').push('o').push('d')));
    assert(split_slash_from(s, 19, ep.push(ec).push(ec.push('r').push('e').push('s').push('o').push('u').push('r').push('c').push('e').push('s')).push(ec.push('r')), ec.push('m').push('e').push('t').push('h').push('o').push('d')) == split_slash_from(s, 20, ep.push(ec).push(ec.push('r').push('e').push('s').push('o').push('u').push('r').push('c').push('e').push('s')).push(ec.push('r')), ec.push('m').push('e').push('t').push('h').push('o').push('d').push('s')));
    assert(split_slash_from(s, 20, ep.push(ec).push(ec.push('r').push('e').push('s').push('o').push('u').push('r').push('c').push('e').push('s')).push(ec.push('r')), ec.push('m').push('e').push('t').push('h').push('o').push('d').push('s')) == split_slash_from(s, 21, ep.push(ec).push(ec.push('r').push('e').push('s').push('o').push('u').push('r').push('c').push('e').push('s')).push(ec.push('r')).push(ec.push('m').push('e').push('t').push('h').push('o').push('d').push('s')), ec));
    assert(split_slash_from(s, 21, ep.push(ec).push(ec.push('r').push('e').push('s').push('o').push('u').push('r').push('c').push('e').push('s')).push(ec.push('r')).push(ec.push('m').push('e').push('t').push('h').push('o').push('d').push('s')), ec) == split_slash_from(s, 22, ep.push(ec).push(ec.push('r').push('e').push('s').push('o').push('u').push('r').push('c').push('e').push('s')).push(ec.push('r')).push(ec.push('m').push('e').push('t').push('h').push('o').push('d').push('s')), ec.push('m')));
    assert(split_slash_from(s, 22, ep.push(ec).push(ec.push('r').push('e').push('s').push('o').push('u').push('r').push('c').push('e').push('s')).push(ec.push('r')).push(ec.push('m').push('e').push('t').push('h').push('o').push('d').push('s')), ec.push('m')) == ep.push(ec).push(ec.push('r').push('e').push('s').push('o').push('u').push('r').push('c').push('e').push('s')).push(ec.push('r')).push(ec.push('m').push('e').push('t').push('h').push('o').push('d').push('s')).push(ec.push('m')));
    assert(ec =~= ""@);
    assert(ec.push('r').push('e').push('s').push('o').push('u').push('r').push('c').push('e').push('s') =~= "resources"@);
    assert(ec.push('r') =~= "r"@);
    assert(ec.push('m').push('e').push('t').push('h').push('o').push('d').push('s') =~= "methods"@);
    assert(ec.push('m') =~= "m"@);
    assert(split_slash("/resources/r/methods/m"@) =~= seq![""@, "resources"@, "r"@, "methods"@, "m"@]);
}

proof fn lemma_split_resource_example()
    ensures
        split_slash("/resources/r"@) =~= seq![""@, "resources"@, "r"@],
{
    reveal_strlit("/resources/r");
    reveal_strlit("");
    reveal_strlit("r");
    reveal_strlit("resources");
    let s = "/resources/r"@;
    assert(s.len() == 12);
    assert(s[0] == '/');
    assert(s[1] == 'r');
    assert(s[2] == 'e');
    assert(s[3] == 's');
    assert(s[4] == 'o');
    assert(s[5] == 'u');
    assert(s[6] == 'r');
    assert(s[7] == 'c');
    assert(s[8] == 'e');
    assert(s[9] == 's');
    assert(s[10] == '/');
    assert(s[11] == 'r');
    let ec = Seq::<char>::empty();
    let ep = Seq::<Seq<char>>::empty();
    assert(split_slash_from(s, 0, ep, ec) == split_slash_from(s, 1, ep.push(ec), ec));
    assert(split_slash_from(s, 1, ep.push(ec), ec) == split_slash_from(s, 2, ep.push(ec), ec.push('r')));
    assert(split_slash_from(s, 2, ep.push(ec), ec.push('r')) == split_slash_from(s, 3, ep.push(ec), ec.push('r').push('e')));
    assert(split_slash_from(s, 3, ep.push(ec), ec.push('r').push('e')) == split_slash_from(s, 4, ep.push(ec), ec.push('r').push('e').push('s')));
    assert(split_slash_from(s, 4, ep.push(ec), ec.push('r').push('e').push('s')) == split_slash_from(s, 5, ep.push(ec), ec.push('r').push('e').push('s').push('o')));
    assert(split_slash_from(s, 5, ep.push(ec), ec.push('r').push('e').push('s').push('o')) == split_slash_from(s, 6, ep.push(ec), ec.push('r').push('e').push('s').push('o').push('u')));
    assert(split_slash_from(s, 6, ep.push(ec), ec.push('r').push('e').push('s').push('o').push('u')) == split_slash_from(s, 7, ep.push(ec), ec.push('r').push('e').push('s').push('o').push('u').push('r')));
    assert(split_slash_from(s, 7, ep.push(ec), ec.push('r').push('e').push('s').push('o').push('u').push('r')) == split_slash_from(s, 8, ep.push(ec), ec.push('r').push('e').push('s').push('o').push('u').push('r').push('c')));
    assert(split_slash_from(s, 8, ep.push(ec), ec.push('r').push('e').push('s').push('o').push('u').push('r').push('c')) == split_slash_from(s, 9, ep.push(ec), ec.push('r').push('e').push('s').push('o').push('u').push('r').push('c').push('e')));
    assert(split_slash_from(s, 9, ep.push(ec), ec.push('r').push('e').push('s').push('o').push('u').push('r').push('c').push('e')) == split_slash_from(s, 10, ep.push(ec), ec.push('r').push('e').push('s').push('o').push('u').push('r').push('c').push('e').push('s')));
    assert(split_slash_from(s, 10, ep.push(ec), ec.push('r').push('e').push('s').push('o').push('u').push('r').push('c').push('e').push('s')) == split_slash_from(s, 11, ep.push(ec).push(ec.push('r').push('e').push('s').push('o').push('u').push('r').push('c').push('e').push('s')), ec));
    assert(split_slash_from(s, 11, ep.push(ec).push(ec.push('r').push('e').push('s').push('o').push('u').push('r').push('c').push('e').push('s')), ec) == split_slash_from(s, 12, ep.push(ec).push(ec.push('r').push('e').push('s').push('o').push('u').push('r').push('c').push('e').push('s')), ec.push('r')));
    assert(split_slash_from(s, 12, ep.push(ec).push(ec.push('r').push('e').push('s').push('o').push('u').push('r').push('c').push('e').push('s')), ec.push('r')) == ep.push(ec).push(ec.push('r').push('e').push('s').push('o').push('u').push('r').push('c').push('e').push('s')).push(ec.push('r')));
    assert(ec =~= ""@);
    assert(ec.push('r').push('e').push('s').push('o').push('u').push('r').push('c').push('e').push('s') =~= "resources"@);
    assert(ec.push('r') =~= "r"@);
    assert(split_slash("/resources/r"@) =~= seq![""@, "resources"@, "r"@]);
}


/// Classifier precision, the firing side: an addition at
/// `/resources/r/methods/m` carrying a value and no old value is a method
/// addition, and any change set holding one gets the `new_method` tag.
pub proof fn lemma_classifier_fires(cs: ChangeSetView, i: int, v: ChangeValueView)
    requires
        0 <= i < cs.additions.len(),
        cs.additions[i] == addition_at("/resources/r/methods/m"@, v),
    ensures
        is_method_addition(cs.additions[i]),
        spec_tags(cs).contains("new_method"@),
{
    lemma_split_method_example();
    assert(is_method_addition(cs.additions[i]));
    assert(spec_has_new_method(cs));
    assert(spec_tags(cs)[0] == "new_method"@);
}

/// Classifier precision, the quiet side: a change at `/resources/r` has only
/// three path segments, so it is no method addition, and a change set whose
/// additions all sit at that path never gets the `new_method` tag.
pub proof fn lemma_classifier_quiet(cs: ChangeSetView)
    requires
        forall|j: int|
            0 <= j < cs.additions.len() ==> (#[trigger] cs.additions[j]).path == "/resources/r"@,
    ensures
        !spec_tags(cs).contains("new_method"@),
{
    lemma_split_resource_example();
    assert(!spec_has_new_method(cs));
    let tags = spec_tags(cs);
    reveal_strlit("new_method");
    reveal_strlit("removed_method");
    assert("removed_method"@ != "new_method"@) by {
        assert("removed_method"@.len() != "new_method"@.len());
    }
    assert(forall|i: int| 0 <= i < tags.len() ==> #[trigger] tags[i] != "new_method"@);
}

} // verus!
