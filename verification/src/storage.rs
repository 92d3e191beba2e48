//! The document snapshot store: the last-seen document per service, used as
//! the diff baseline for the next cycle.
//!
//! Each service has a single logical slot, overwritten wholesale on every
//! store; no history is kept here.  The durable medium under `base_path` is
//! written and read by the caller through the paths this store computes.

use vstd::prelude::*;
use crate::document::{DiscoveryDocument, DocumentView};
use crate::keymap::{
    assoc_get, lemma_assoc_get_of_first_match, lemma_assoc_get_of_no_match, unique_keys,
};
use crate::text::{concat_str, str_eq};

verus! {

/// The mathematical view of the snapshot store.
#[verifier::ext_equal]
pub struct StorageView {
    pub base_path: Seq<char>,
    pub docs: Seq<(Seq<char>, DocumentView)>,
}

impl StorageView {
    /// One slot per service.
    pub open spec fn wf(self) -> bool {
        unique_keys(self.docs)
    }
}

/// The snapshot store.
pub struct Storage {
    base_path: String,
    docs: Vec<(String, DiscoveryDocument)>,
}

impl View for Storage {
    type V = StorageView;

    closed spec fn view(&self) -> StorageView {
        StorageView { base_path: self.base_path.deep_view(), docs: self.docs.deep_view() }
    }
}

impl Storage {
    /// An empty store that persists under `base_path`.
    pub fn new(base_path: String) -> (r: Self)
        ensures
            r@.base_path == base_path@,
            r@.docs == Seq::<(Seq<char>, DocumentView)>::empty(),
            r@.wf(),
    {
        let r = Storage { base_path, docs: Vec::new() };
        proof {
            assert(r@.docs =~= Seq::<(Seq<char>, DocumentView)>::empty());
        }
        r
    }

    /// The directory the store persists under.
    pub fn base_path(&self) -> (r: &String)
        ensures
            r@ == self@.base_path,
    {
        &self.base_path
    }

    /// The file a service's snapshot is persisted under:
    /// `{base_path}/{service}.json`.
    pub fn get_path(&self, service: &str) -> (r: String)
        ensures
            r@ == self@.base_path + "/"@ + service@ + ".json"@,
    {
        let mut p = concat_str(self.base_path.as_str(), "/");
        p.append(service);
        p.append(".json");
        proof {
            assert(p@ =~= self@.base_path + "/"@ + service@ + ".json"@);
        }
        p
    }

    /// Overwrites the single slot of `service` with `document`.
    pub fn store(&mut self, service: &str, document: &DiscoveryDocument)
        requires
            old(self)@.wf(),
        ensures
            final(self)@.wf(),
            final(self)@.base_path == old(self)@.base_path,
            assoc_get(final(self)@.docs, service@) == Some(document.deep_view()),
            forall|k: Seq<char>|
                k != service@ ==> #[trigger] assoc_get(final(self)@.docs, k) == assoc_get(
                    old(self)@.docs,
                    k,
                ),
    {
        let ghost s0 = self@.docs;
        let mut i: usize = 0;
        let mut found = false;
        while i < self.docs.len() && !found
            invariant
                0 <= i <= self.docs.len(),
                s0 == self.docs.deep_view(),
                s0.len() == self.docs.len(),
                !found ==> forall|j: int| 0 <= j < i ==> (#[trigger] s0[j]).0 != service@,
                found ==> i < s0.len() && s0[i as int].0 == service@ && forall|j: int|
                    0 <= j < i ==> (#[trigger] s0[j]).0 != service@,
            decreases self.docs.len() - i + (if found { 0int } else { 1int }),
        {
            proof {
                assert(s0[i as int] == (
                    self.docs@[i as int].0.deep_view(),
                    self.docs@[i as int].1.deep_view(),
                ));
            }
            if str_eq(self.docs[i].0.as_str(), service) {
                found = true;
            } else {
                i += 1;
            }
        }
        if found {
            let ghost pre = self.docs.deep_view();
            self.docs.set(i, (service.to_owned(), document.clone()));
            proof {
                let dv = document.deep_view();
                assert(self.docs.deep_view() =~= pre.update(i as int, (pre[i as int].0, dv)));
                assert forall|k: Seq<char>| k != service@ implies #[trigger] assoc_get(
                    self@.docs,
                    k,
                ) == assoc_get(s0, k) by {
                    lemma_assoc_get_update_other(s0, i as int, dv, k);
                }
                lemma_assoc_get_of_first_match(self@.docs, service@, i as int);
                assert(unique_keys(self@.docs)) by {
                    assert(forall|j: int|
                        0 <= j < s0.len() ==> (#[trigger] self@.docs[j]).0 == s0[j].0);
                }
            }
        } else {
            let ghost pre = self.docs.deep_view();
            self.docs.push((service.to_owned(), document.clone()));
            proof {
                let dv = document.deep_view();
                assert(self.docs.deep_view() =~= pre.push((service@, dv)));
                assert forall|k: Seq<char>| k != service@ implies #[trigger] assoc_get(
                    self@.docs,
                    k,
                ) == assoc_get(s0, k) by {
                    lemma_assoc_get_push_other(s0, (service@, dv), k);
                }
                assert(forall|j: int|
                    0 <= j < s0.len() ==> #[trigger] self@.docs[j] == s0[j]);
                lemma_assoc_get_of_first_match(self@.docs, service@, s0.len() as int);
                assert(unique_keys(self@.docs)) by {
                    assert(forall|j: int|
                        0 <= j < s0.len() ==> (#[trigger] self@.docs[j]).0 == s0[j].0);
                }
            }
        }
    }

    /// The last-seen snapshot of `service`, if one is stored.
    pub fn retrieve<'a>(&'a self, service: &str) -> (r: Option<&'a DiscoveryDocument>)
        ensures
            match r {
                Some(d) => assoc_get(self@.docs, service@) == Some(d.deep_view()),
                None => assoc_get(self@.docs, service@) is None,
            },
    {
        let mut i: usize = 0;
        while i < self.docs.len()
            invariant
                0 <= i <= self.docs.len(),
                self@.docs.len() == self.docs.len(),
                forall|j: int| 0 <= j < i ==> (#[trigger] self@.docs[j]).0 != service@,
            decreases self.docs.len() - i,
        {
            proof {
                assert(self@.docs[i as int] == (
                    self.docs@[i as int].0.deep_view(),
                    self.docs@[i as int].1.deep_view(),
                ));
            }
            if str_eq(self.docs[i].0.as_str(), service) {
                proof {
                    lemma_assoc_get_of_first_match(self@.docs, service@, i as int);
                }
                return Some(&self.docs[i].1);
            }
            i += 1;
        }
        proof {
            lemma_assoc_get_of_no_match(self@.docs, service@);
        }
        None
    }

    /// Every stored snapshot, keyed by service.
    pub fn retrieve_all(&self) -> (r: &Vec<(String, DiscoveryDocument)>)
        ensures
            r.deep_view() == self@.docs,
    {
        &self.docs
    }
}

/// Updating the value at one position leaves every other key's lookup alone.
proof fn lemma_assoc_get_update_other(
    s: Seq<(Seq<char>, DocumentView)>,
    i: int,
    v: DocumentView,
    k: Seq<char>,
)
    requires
        0 <= i < s.len(),
        k != s[i].0,
    ensures
        assoc_get(s.update(i, (s[i].0, v)), k) == assoc_get(s, k),
    decreases s.len(),
{
    let t = s.update(i, (s[i].0, v));
    if s.len() > 0 {
        if i == 0 {
            assert(t[0].0 == s[0].0);
            assert(t.skip(1) =~= s.skip(1));
        } else {
            assert(t[0] == s[0]);
            assert(t.skip(1) =~= s.skip(1).update(i - 1, (s.skip(1)[i - 1].0, v)));
            lemma_assoc_get_update_other(s.skip(1), i - 1, v, k);
        }
    }
}

/// Appending an entry with another key leaves a key's lookup alone.
proof fn lemma_assoc_get_push_other(
    s: Seq<(Seq<char>, DocumentView)>,
    e: (Seq<char>, DocumentView),
    k: Seq<char>,
)
    requires
        k != e.0,
    ensures
        assoc_get(s.push(e), k) == assoc_get(s, k),
    decreases s.len(),
{
    let t = s.push(e);
    if s.len() == 0 {
        assert(t[0] == e);
        lemma_assoc_get_of_no_match(t, k);
    } else {
        assert(t[0] == s[0]);
        assert(t.skip(1) =~= s.skip(1).push(e));
        lemma_assoc_get_push_other(s.skip(1), e, k);
    }
}

} // verus!
