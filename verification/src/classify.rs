//! The change classifier: derives semantic tags from a change set.
//!
//! Two independent predicates, each scanning one of the addition/deletion
//! sequences.  A method deletion is emitted by the differ with no payload at
//! all, so the "removed_method" predicate, which asks for an old value, can
//! only fire on other change shapes; that gap between the differ's payload
//! policy and this predicate is kept as it stands.

use vstd::prelude::*;
use crate::change::{Change, ChangeSet, ChangeSetView, ChangeView};
use crate::text::{split_on_slash, split_slash, str_eq};

verus! {

/// An addition that introduces a whole method: its path has at least four
/// segments, the second-to-last is `methods`, and it carries a value but no
/// old value.
pub open spec fn is_method_addition(c: ChangeView) -> bool {
    let segs = split_slash(c.path);
    &&& segs.len() >= 4
    &&& segs[segs.len() - 2] == "methods"@
    &&& c.value is Some
    &&& c.old_value is None
}

/// A deletion at a method path that carries an old value but no value.
pub open spec fn is_method_removal(c: ChangeView) -> bool {
    let segs = split_slash(c.path);
    &&& segs.len() >= 4
    &&& segs[segs.len() - 2] == "methods"@
    &&& c.value is None
    &&& c.old_value is Some
}

/// Some addition introduces a whole method.
pub open spec fn spec_has_new_method(cs: ChangeSetView) -> bool {
    exists|i: int| 0 <= i < cs.additions.len() && is_method_addition(#[trigger] cs.additions[i])
}

/// Some deletion removes a method and carries its old value.
pub open spec fn spec_has_removed_method(cs: ChangeSetView) -> bool {
    exists|i: int| 0 <= i < cs.deletions.len() && is_method_removal(#[trigger] cs.deletions[i])
}

/// The semantic tags of a change set: `new_method`, then `removed_method`,
/// each present exactly when its predicate holds.
pub open spec fn spec_tags(cs: ChangeSetView) -> Seq<Seq<char>> {
    (if spec_has_new_method(cs) {
        seq!["new_method"@]
    } else {
        Seq::empty()
    }) + (if spec_has_removed_method(cs) {
        seq!["removed_method"@]
    } else {
        Seq::empty()
    })
}

/// Whether one change is an addition of a whole method.
fn change_is_method_addition(c: &Change) -> (r: bool)
    ensures
        r == is_method_addition(c.deep_view()),
{
    let segs = split_on_slash(c.path.as_str());
    if segs.len() < 4 {
        return false;
    }
    let idx = segs.len() - 2;
    proof {
        assert(segs.deep_view()[idx as int] == segs@[idx as int].deep_view());
    }
    str_eq(segs[idx].as_str(), "methods") && c.value.is_some() && c.old_value.is_none()
}

/// Whether one change is a deletion at a method path carrying the old value.
fn change_is_method_removal(c: &Change) -> (r: bool)
    ensures
        r == is_method_removal(c.deep_view()),
{
    let segs = split_on_slash(c.path.as_str());
    if segs.len() < 4 {
        return false;
    }
    let idx = segs.len() - 2;
    proof {
        assert(segs.deep_view()[idx as int] == segs@[idx as int].deep_view());
    }
    str_eq(segs[idx].as_str(), "methods") && c.value.is_none() && c.old_value.is_some()
}

/// Whether any addition of the change set introduces a whole method.
pub fn has_new_method(change_set: &ChangeSet) -> (r: bool)
    ensures
        r == spec_has_new_method(change_set.deep_view()),
{
    let mut i: usize = 0;
    while i < change_set.additions.len()
        invariant
            0 <= i <= change_set.additions.len(),
            forall|j: int|
                0 <= j < i ==> !is_method_addition(
                    #[trigger] change_set.deep_view().additions[j],
                ),
        decreases change_set.additions.len() - i,
    {
        proof {
            assert(change_set.deep_view().additions[i as int] == change_set.additions@[i as int].deep_view());
        }
        if change_is_method_addition(&change_set.additions[i]) {
            return true;
        }
        i += 1;
    }
    false
}

/// Whether any deletion of the change set removes a method with its old value.
pub fn has_removed_method(change_set: &ChangeSet) -> (r: bool)
    ensures
        r == spec_has_removed_method(change_set.deep_view()),
{
    let mut i: usize = 0;
    while i < change_set.deletions.len()
        invariant
            0 <= i <= change_set.deletions.len(),
            forall|j: int|
                0 <= j < i ==> !is_method_removal(#[trigger] change_set.deep_view().deletions[j]),
        decreases change_set.deletions.len() - i,
    {
        proof {
            assert(change_set.deep_view().deletions[i as int] == change_set.deletions@[i as int].deep_view());
        }
        if change_is_method_removal(&change_set.deletions[i]) {
            return true;
        }
        i += 1;
    }
    false
}

/// The semantic tags of a change set, in their fixed order.
pub fn classify_tags(change_set: &ChangeSet) -> (r: Vec<String>)
    ensures
        r.deep_view() == spec_tags(change_set.deep_view()),
{
    let mut tags: Vec<String> = Vec::new();
    if has_new_method(change_set) {
        tags.push("new_method".to_owned());
    }
    if has_removed_method(change_set) {
        tags.push("removed_method".to_owned());
    }
    proof {
        assert(tags.deep_view() =~= spec_tags(change_set.deep_view()));
    }
    tags
}

} // verus!
