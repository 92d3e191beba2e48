//! Changes and change sets: one atomic difference, and the result of one
//! diff invocation.
//!
//! Exactly one shape holds per change: an addition sets `value`, a deletion
//! may set `old_value`, a modification sets `old_value` and `new_value`.
//! [`ChangeDelta`] is the spec-level account of what a comparison step
//! contributes to the three sequences of a change set.

use vstd::prelude::*;
use crate::value::{clone_opt_value, ChangeValue, ChangeValueView};

verus! {

/// One atomic difference, addressed by a slash-delimited path.
pub struct Change {
    pub path: String,
    pub value: Option<ChangeValue>,
    pub old_value: Option<ChangeValue>,
    pub new_value: Option<ChangeValue>,
}

/// The mathematical view of one change.
#[verifier::ext_equal]
pub struct ChangeView {
    pub path: Seq<char>,
    pub value: Option<ChangeValueView>,
    pub old_value: Option<ChangeValueView>,
    pub new_value: Option<ChangeValueView>,
}

impl DeepView for Change {
    type V = ChangeView;

    open spec fn deep_view(&self) -> ChangeView {
        ChangeView {
            path: self.path.deep_view(),
            value: self.value.deep_view(),
            old_value: self.old_value.deep_view(),
            new_value: self.new_value.deep_view(),
        }
    }
}

impl Clone for Change {
    fn clone(&self) -> (r: Self)
        ensures
            r.deep_view() == self.deep_view(),
    {
        Change {
            path: self.path.clone(),
            value: clone_opt_value(&self.value),
            old_value: clone_opt_value(&self.old_value),
            new_value: clone_opt_value(&self.new_value),
        }
    }
}

/// A fresh copy of a change list.
pub fn clone_change_vec(a: &Vec<Change>) -> (r: Vec<Change>)
    ensures
        r.deep_view() == a.deep_view(),
{
    let mut r: Vec<Change> = Vec::new();
    let mut i: usize = 0;
    while i < a.len()
        invariant
            0 <= i <= a.len(),
            r.deep_view().len() == i,
            forall|j: int| 0 <= j < i ==> r.deep_view()[j] == a.deep_view()[j],
        decreases a.len() - i,
    {
        r.push(a[i].clone());
        i += 1;
    }
    proof {
        assert(r.deep_view() =~= a.deep_view());
    }
    r
}

/// The complete outcome of one diff invocation for one service.
pub struct ChangeSet {
    pub service: String,
    pub modifications: Vec<Change>,
    pub additions: Vec<Change>,
    pub deletions: Vec<Change>,
}

/// The mathematical view of a change set.
#[verifier::ext_equal]
pub struct ChangeSetView {
    pub service: Seq<char>,
    pub modifications: Seq<ChangeView>,
    pub additions: Seq<ChangeView>,
    pub deletions: Seq<ChangeView>,
}

impl DeepView for ChangeSet {
    type V = ChangeSetView;

    open spec fn deep_view(&self) -> ChangeSetView {
        ChangeSetView {
            service: self.service.deep_view(),
            modifications: self.modifications.deep_view(),
            additions: self.additions.deep_view(),
            deletions: self.deletions.deep_view(),
        }
    }
}

impl ChangeSet {
    /// Whether the set records no difference at all.
    pub fn is_empty(&self) -> (r: bool)
        ensures
            r == (self.deep_view().modifications.len() == 0
                && self.deep_view().additions.len() == 0 && self.deep_view().deletions.len() == 0),
    {
        self.modifications.len() == 0 && self.additions.len() == 0 && self.deletions.len() == 0
    }
}

/// What one comparison step contributes to the three sequences.
#[verifier::ext_equal]
pub struct ChangeDelta {
    pub modifications: Seq<ChangeView>,
    pub additions: Seq<ChangeView>,
    pub deletions: Seq<ChangeView>,
}

impl ChangeDelta {
    pub open spec fn empty() -> ChangeDelta {
        ChangeDelta {
            modifications: Seq::empty(),
            additions: Seq::empty(),
            deletions: Seq::empty(),
        }
    }

    pub open spec fn one_modification(c: ChangeView) -> ChangeDelta {
        ChangeDelta {
            modifications: seq![c],
            additions: Seq::empty(),
            deletions: Seq::empty(),
        }
    }

    pub open spec fn one_addition(c: ChangeView) -> ChangeDelta {
        ChangeDelta {
            modifications: Seq::empty(),
            additions: seq![c],
            deletions: Seq::empty(),
        }
    }

    pub open spec fn one_deletion(c: ChangeView) -> ChangeDelta {
        ChangeDelta {
            modifications: Seq::empty(),
            additions: Seq::empty(),
            deletions: seq![c],
        }
    }

    /// This delta followed by `other`.
    pub open spec fn followed_by(self, other: ChangeDelta) -> ChangeDelta {
        ChangeDelta {
            modifications: self.modifications + other.modifications,
            additions: self.additions + other.additions,
            deletions: self.deletions + other.deletions,
        }
    }

    pub open spec fn is_empty(self) -> bool {
        self =~= ChangeDelta::empty()
    }

}

/// An addition carrying `v` at `path`.
pub open spec fn addition_at(path: Seq<char>, v: ChangeValueView) -> ChangeView {
    ChangeView { path, value: Some(v), old_value: None, new_value: None }
}

/// A deletion carrying the old value at `path`.
pub open spec fn deletion_at(path: Seq<char>, ov: ChangeValueView) -> ChangeView {
    ChangeView { path, value: None, old_value: Some(ov), new_value: None }
}

/// A deletion with no payload at `path`.
pub open spec fn bare_deletion_at(path: Seq<char>) -> ChangeView {
    ChangeView { path, value: None, old_value: None, new_value: None }
}

/// A modification carrying both sides at `path`.
pub open spec fn modification_at(
    path: Seq<char>,
    ov: ChangeValueView,
    nv: ChangeValueView,
) -> ChangeView {
    ChangeView { path, value: None, old_value: Some(ov), new_value: Some(nv) }
}

} // verus!
