//! The change log store: a durable, queryable, append-only history of change
//! events, one record per detection, keyed by `(service, timestamp)`.
//!
//! The store owns all records for the lifetime of the process and keeps them
//! sorted by timestamp, newest first.  A second log event for the same
//! service within the same clock second overwrites the first.  A caller that
//! restores records from the durable medium at startup seeds the store with
//! [`ChangeLogger::restore`].

use vstd::prelude::*;
use crate::change::{clone_change_vec, Change, ChangeSet, ChangeView};
use crate::classify::{classify_tags, spec_tags};
use crate::clock::now_unix_seconds;
use crate::document::DiscoveryDocument;
use crate::text::{clone_str_vec, concat_str, dec_str, starts_with_prefix, str_eq, u64_to_dec};

verus! {

/// One durably persisted, timestamped change-detection event.
pub struct LoggedChange {
    pub revision: String,
    pub timestamp: u64,
    pub service: String,
    pub summary: ChangeSummary,
    pub modifications: Vec<Change>,
    pub additions: Vec<Change>,
    pub deletions: Vec<Change>,
}

/// Counts and semantic tags of one logged change.
pub struct ChangeSummary {
    pub additions: usize,
    pub modifications: usize,
    pub deletions: usize,
    pub tags: Vec<String>,
}

#[verifier::ext_equal]
pub struct ChangeSummaryView {
    pub additions: usize,
    pub modifications: usize,
    pub deletions: usize,
    pub tags: Seq<Seq<char>>,
}

#[verifier::ext_equal]
pub struct LoggedChangeView {
    pub revision: Seq<char>,
    pub timestamp: u64,
    pub service: Seq<char>,
    pub summary: ChangeSummaryView,
    pub modifications: Seq<ChangeView>,
    pub additions: Seq<ChangeView>,
    pub deletions: Seq<ChangeView>,
}

impl DeepView for ChangeSummary {
    type V = ChangeSummaryView;

    open spec fn deep_view(&self) -> ChangeSummaryView {
        ChangeSummaryView {
            additions: self.additions,
            modifications: self.modifications,
            deletions: self.deletions,
            tags: self.tags.deep_view(),
        }
    }
}

impl DeepView for LoggedChange {
    type V = LoggedChangeView;

    open spec fn deep_view(&self) -> LoggedChangeView {
        LoggedChangeView {
            revision: self.revision.deep_view(),
            timestamp: self.timestamp,
            service: self.service.deep_view(),
            summary: self.summary.deep_view(),
            modifications: self.modifications.deep_view(),
            additions: self.additions.deep_view(),
            deletions: self.deletions.deep_view(),
        }
    }
}

impl Clone for ChangeSummary {
    fn clone(&self) -> (r: Self)
        ensures
            r.deep_view() == self.deep_view(),
    {
        ChangeSummary {
            additions: self.additions,
            modifications: self.modifications,
            deletions: self.deletions,
            tags: clone_str_vec(&self.tags),
        }
    }
}

impl Clone for LoggedChange {
    fn clone(&self) -> (r: Self)
        ensures
            r.deep_view() == self.deep_view(),
    {
        LoggedChange {
            revision: self.revision.clone(),
            timestamp: self.timestamp,
            service: self.service.clone(),
            summary: self.summary.clone(),
            modifications: clone_change_vec(&self.modifications),
            additions: clone_change_vec(&self.additions),
            deletions: clone_change_vec(&self.deletions),
        }
    }
}

/// How a store operation fails: the durable medium cannot be read or
/// written; a stored record cannot be decoded; or an exact-key lookup
/// misses, a normal outcome distinct from corruption.
#[derive(Debug)]
pub enum LogError {
    MediumUnavailable,
    DecodeFailure,
    NotFound,
}

// ---------------------------------------------------------------------------
// The mathematical model of the record list
// ---------------------------------------------------------------------------

/// Records are ordered by timestamp, newest first; ties carry no order.
pub open spec fn sorted_desc(s: Seq<LoggedChangeView>) -> bool {
    forall|i: int, j: int|
        0 <= i < j < s.len() ==> (#[trigger] s[i]).timestamp >= (#[trigger] s[j]).timestamp
}

/// No two records share a `(service, timestamp)` key.
pub open spec fn unique_record_keys(s: Seq<LoggedChangeView>) -> bool {
    forall|i: int, j: int|
        0 <= i < j < s.len() ==> !((#[trigger] s[i]).service == (#[trigger] s[j]).service
            && s[i].timestamp == s[j].timestamp)
}

/// Whether a record has the given key.
pub open spec fn record_has_key(r: LoggedChangeView, service: Seq<char>, ts: u64) -> bool {
    r.service == service && r.timestamp == ts
}

/// The position of the first record with the given key.
pub open spec fn spec_find_index(
    s: Seq<LoggedChangeView>,
    service: Seq<char>,
    ts: u64,
) -> Option<int>
    decreases s.len(),
{
    if s.len() == 0 {
        None
    } else if record_has_key(s[0], service, ts) {
        Some(0)
    } else {
        match spec_find_index(s.skip(1), service, ts) {
            Some(i) => Some(i + 1),
            None => None,
        }
    }
}

/// The first record with the given key, if any.
pub open spec fn spec_find_record(
    s: Seq<LoggedChangeView>,
    service: Seq<char>,
    ts: u64,
) -> Option<LoggedChangeView> {
    match spec_find_index(s, service, ts) {
        Some(i) => Some(s[i]),
        None => None,
    }
}

/// The record list without the first record of the given key.
pub open spec fn spec_remove_key(
    s: Seq<LoggedChangeView>,
    service: Seq<char>,
    ts: u64,
) -> Seq<LoggedChangeView> {
    match spec_find_index(s, service, ts) {
        Some(i) => s.remove(i),
        None => s,
    }
}

/// The first position whose record is strictly older than `ts`: where a
/// record with timestamp `ts` is inserted to keep the newest-first order.
pub open spec fn spec_insert_pos(s: Seq<LoggedChangeView>, ts: u64) -> int
    decreases s.len(),
{
    if s.len() == 0 {
        0
    } else if s[0].timestamp < ts {
        0
    } else {
        1 + spec_insert_pos(s.skip(1), ts)
    }
}

/// The record list after logging `r`: any record with `r`'s key leaves, and
/// `r` takes its place in timestamp order.
pub open spec fn spec_log_insert(
    s: Seq<LoggedChangeView>,
    r: LoggedChangeView,
) -> Seq<LoggedChangeView> {
    let u = spec_remove_key(s, r.service, r.timestamp);
    u.insert(spec_insert_pos(u, r.timestamp), r)
}

/// The record built from a change set: counts, tags, the revision of the new
/// document (or `unknown`), and the three change lists verbatim.
pub open spec fn spec_logged_change(
    cs: crate::change::ChangeSetView,
    revision: Option<Seq<char>>,
    timestamp: u64,
) -> LoggedChangeView {
    LoggedChangeView {
        revision: match revision {
            Some(r) => r,
            None => "unknown"@,
        },
        timestamp,
        service: cs.service,
        summary: ChangeSummaryView {
            additions: cs.additions.len() as usize,
            modifications: cs.modifications.len() as usize,
            deletions: cs.deletions.len() as usize,
            tags: spec_tags(cs),
        },
        modifications: cs.modifications,
        additions: cs.additions,
        deletions: cs.deletions,
    }
}

/// The page of `s` that skips `offset` records and holds at most `limit`.
pub open spec fn spec_page(s: Seq<LoggedChangeView>, offset: int, limit: int) -> Seq<
    LoggedChangeView,
> {
    let start = if offset <= s.len() {
        offset
    } else {
        s.len() as int
    };
    let end = if offset + limit <= s.len() {
        offset + limit
    } else {
        s.len() as int
    };
    s.subrange(start, end)
}

/// The records whose service component starts with `service` (prefix match,
/// not equality: a service also matches every service it is a prefix of).
pub open spec fn spec_service_filter(s: Seq<LoggedChangeView>, service: Seq<char>) -> Seq<
    LoggedChangeView,
> {
    s.filter(|r: LoggedChangeView| service.is_prefix_of(r.service))
}

/// The name of the file a record is persisted under.
pub open spec fn spec_log_file_name(service: Seq<char>, ts: u64) -> Seq<char> {
    service + "-"@ + dec_str(ts as int) + ".json"@
}

// ---------------------------------------------------------------------------
// Characterization lemmas
// ---------------------------------------------------------------------------

/// If no record before `i` has the key and record `i` has it, the search
/// stops at `i`.
pub proof fn lemma_find_index_first(
    s: Seq<LoggedChangeView>,
    service: Seq<char>,
    ts: u64,
    i: int,
)
    requires
        0 <= i < s.len(),
        record_has_key(s[i], service, ts),
        forall|j: int| 0 <= j < i ==> !record_has_key(#[trigger] s[j], service, ts),
    ensures
        spec_find_index(s, service, ts) == Some(i),
    decreases i,
{
    if i > 0 {
        assert(forall|j: int|
            0 <= j < i - 1 ==> s.skip(1)[j] == s[j + 1] && !record_has_key(
                #[trigger] s.skip(1)[j],
                service,
                ts,
            ));
        assert(s.skip(1)[i - 1] == s[i]);
        lemma_find_index_first(s.skip(1), service, ts, i - 1);
    }
}

/// If no record has the key, the search misses.
pub proof fn lemma_find_index_none(s: Seq<LoggedChangeView>, service: Seq<char>, ts: u64)
    requires
        forall|j: int| 0 <= j < s.len() ==> !record_has_key(#[trigger] s[j], service, ts),
    ensures
        spec_find_index(s, service, ts) is None,
    decreases s.len(),
{
    if s.len() > 0 {
        assert(forall|j: int|
            0 <= j < s.skip(1).len() ==> s.skip(1)[j] == s[j + 1] && !record_has_key(
                #[trigger] s.skip(1)[j],
                service,
                ts,
            ));
        lemma_find_index_none(s.skip(1), service, ts);
    }
}

/// Where the search finds a key, that position has it and nothing before it
/// does.
pub proof fn lemma_find_index_some(s: Seq<LoggedChangeView>, service: Seq<char>, ts: u64)
    requires
        spec_find_index(s, service, ts) is Some,
    ensures
        0 <= spec_find_index(s, service, ts).unwrap() < s.len(),
        record_has_key(s[spec_find_index(s, service, ts).unwrap()], service, ts),
        forall|j: int|
            0 <= j < spec_find_index(s, service, ts).unwrap() ==> !record_has_key(
                #[trigger] s[j],
                service,
                ts,
            ),
    decreases s.len(),
{
    if s.len() > 0 && !record_has_key(s[0], service, ts) {
        lemma_find_index_some(s.skip(1), service, ts);
        assert(forall|j: int| 0 <= j < s.skip(1).len() ==> #[trigger] s.skip(1)[j] == s[j + 1]);
        let idx = spec_find_index(s, service, ts).unwrap();
        assert forall|j: int| 0 <= j < idx implies !record_has_key(
            #[trigger] s[j],
            service,
            ts,
        ) by {
            if j > 0 {
                assert(s.skip(1)[j - 1] == s[j]);
            }
        }
    }
}

/// The insertion position is within the list; everything before it is at
/// least as new as `ts`, and the record at it, if any, is older.
pub proof fn lemma_insert_pos_props(s: Seq<LoggedChangeView>, ts: u64)
    ensures
        0 <= spec_insert_pos(s, ts) <= s.len(),
        forall|j: int| 0 <= j < spec_insert_pos(s, ts) ==> (#[trigger] s[j]).timestamp >= ts,
        spec_insert_pos(s, ts) < s.len() ==> s[spec_insert_pos(s, ts)].timestamp < ts,
    decreases s.len(),
{
    if s.len() > 0 && s[0].timestamp >= ts {
        lemma_insert_pos_props(s.skip(1), ts);
        assert(forall|j: int| 0 <= j < s.skip(1).len() ==> #[trigger] s.skip(1)[j] == s[j + 1]);
        let pos = spec_insert_pos(s, ts);
        assert forall|j: int| 0 <= j < pos implies (#[trigger] s[j]).timestamp >= ts by {
            if j > 0 {
                assert(s.skip(1)[j - 1] == s[j]);
            }
        }
    }
}

/// Any position with those properties is the insertion position.
pub proof fn lemma_insert_pos_unique(s: Seq<LoggedChangeView>, ts: u64, p: int)
    requires
        0 <= p <= s.len(),
        forall|j: int| 0 <= j < p ==> (#[trigger] s[j]).timestamp >= ts,
        p < s.len() ==> s[p].timestamp < ts,
    ensures
        spec_insert_pos(s, ts) == p,
    decreases s.len(),
{
    if s.len() > 0 && s[0].timestamp >= ts {
        assert(p >= 1);
        assert(forall|j: int|
            0 <= j < p - 1 ==> #[trigger] s.skip(1)[j] == s[j + 1] && s[j + 1].timestamp >= ts);
        if p - 1 < s.skip(1).len() {
            assert(s.skip(1)[p - 1] == s[p]);
        }
        lemma_insert_pos_unique(s.skip(1), ts, p - 1);
    }
}

/// Logging keeps the order newest-first and the keys unique, and the new
/// record is found under its key afterwards.
pub proof fn lemma_log_insert_props(s: Seq<LoggedChangeView>, r: LoggedChangeView)
    requires
        sorted_desc(s),
        unique_record_keys(s),
    ensures
        sorted_desc(spec_log_insert(s, r)),
        unique_record_keys(spec_log_insert(s, r)),
        spec_find_record(spec_log_insert(s, r), r.service, r.timestamp) == Some(r),
        spec_log_insert(s, r).len() == spec_remove_key(s, r.service, r.timestamp).len() + 1,
{
    let u = spec_remove_key(s, r.service, r.timestamp);
    // The list without the key keeps order and uniqueness, and misses the key.
    assert(sorted_desc(u) && unique_record_keys(u) && forall|j: int|
        0 <= j < u.len() ==> !record_has_key(#[trigger] u[j], r.service, r.timestamp)) by {
        match spec_find_index(s, r.service, r.timestamp) {
            Some(i) => {
                lemma_find_index_some(s, r.service, r.timestamp);
                s.remove_ensures(i);
                assert forall|j: int|
                    0 <= j < u.len() implies !record_has_key(
                    #[trigger] u[j],
                    r.service,
                    r.timestamp,
                ) by {
                    if j < i {
                        assert(u[j] == s[j]);
                    } else {
                        assert(u[j] == s[j + 1]);
                        assert(!record_has_key(s[j + 1], r.service, r.timestamp));
                    }
                }
                assert forall|p: int, q: int| 0 <= p < q < u.len() implies (
                #[trigger] u[p]).timestamp >= (#[trigger] u[q]).timestamp by {
                    let sp = if p < i {
                        p
                    } else {
                        p + 1
                    };
                    let sq = if q < i {
                        q
                    } else {
                        q + 1
                    };
                    assert(u[p] == s[sp] && u[q] == s[sq]);
                }
                assert forall|p: int, q: int| 0 <= p < q < u.len() implies !((
                #[trigger] u[p]).service == (#[trigger] u[q]).service && u[p].timestamp
                    == u[q].timestamp) by {
                    let sp = if p < i {
                        p
                    } else {
                        p + 1
                    };
                    let sq = if q < i {
                        q
                    } else {
                        q + 1
                    };
                    assert(u[p] == s[sp] && u[q] == s[sq]);
                }
            },
            None => {
                lemma_find_index_none_converse(s, r.service, r.timestamp);
            },
        }
    }
    let pos = spec_insert_pos(u, r.timestamp);
    lemma_insert_pos_props(u, r.timestamp);
    let t = u.insert(pos, r);
    u.insert_ensures(pos, r);
    assert(sorted_desc(t)) by {
        assert forall|p: int, q: int| 0 <= p < q < t.len() implies (#[trigger] t[p]).timestamp >= (
        #[trigger] t[q]).timestamp by {
            if p < pos {
                assert(t[p] == u[p] && u[p].timestamp >= r.timestamp);
            }
            if q > pos {
                assert(t[q] == u[q - 1]);
                if q - 1 >= pos {
                    if pos < u.len() {
                        assert(u[pos].timestamp < r.timestamp);
                    }
                }
            }
            if p == pos {
                assert(t[p] == r);
            }
            if q == pos {
                assert(t[q] == r);
            }
        }
    }
    assert(unique_record_keys(t)) by {
        assert forall|p: int, q: int| 0 <= p < q < t.len() implies !((#[trigger] t[p]).service == (
        #[trigger] t[q]).service && t[p].timestamp == t[q].timestamp) by {
            let up = if p < pos {
                p
            } else {
                p - 1
            };
            let uq = if q < pos {
                q
            } else {
                q - 1
            };
            if p != pos && q != pos {
                assert(t[p] == u[up] && t[q] == u[uq]);
            } else if p == pos {
                assert(t[p] == r && t[q] == u[uq]);
            } else {
                assert(t[q] == r && t[p] == u[up]);
            }
        }
    }
    assert(spec_find_record(t, r.service, r.timestamp) == Some(r)) by {
        assert forall|j: int| 0 <= j < pos implies !record_has_key(
            #[trigger] t[j],
            r.service,
            r.timestamp,
        ) by {
            assert(t[j] == u[j]);
        }
        assert(t[pos] == r);
        lemma_find_index_first(t, r.service, r.timestamp, pos);
    }
}

/// If the search misses, no record has the key.
pub proof fn lemma_find_index_none_converse(
    s: Seq<LoggedChangeView>,
    service: Seq<char>,
    ts: u64,
)
    requires
        spec_find_index(s, service, ts) is None,
    ensures
        forall|j: int| 0 <= j < s.len() ==> !record_has_key(#[trigger] s[j], service, ts),
    decreases s.len(),
{
    if s.len() > 0 {
        lemma_find_index_none_converse(s.skip(1), service, ts);
        assert(forall|j: int| 0 <= j < s.skip(1).len() ==> #[trigger] s.skip(1)[j] == s[j + 1]);
        assert forall|j: int| 0 <= j < s.len() implies !record_has_key(
            #[trigger] s[j],
            service,
            ts,
        ) by {
            if j > 0 {
                assert(s.skip(1)[j - 1] == s[j]);
            }
        }
    }
}

// ---------------------------------------------------------------------------
// The store
// ---------------------------------------------------------------------------

/// The mathematical view of the store: where it persists, and its records.
#[verifier::ext_equal]
pub struct ChangeLoggerView {
    pub base_path: Seq<char>,
    pub records: Seq<LoggedChangeView>,
}

impl ChangeLoggerView {
    /// Records sorted newest-first with unique keys.
    pub open spec fn wf(self) -> bool {
        sorted_desc(self.records) && unique_record_keys(self.records)
    }
}

/// The change log store.  Holds every logged record of the process, sorted by
/// timestamp descending; the durable medium under `base_path` is written and
/// read by the caller through the names this store computes.
pub struct ChangeLogger {
    base_path: String,
    records: Vec<LoggedChange>,
}

impl View for ChangeLogger {
    type V = ChangeLoggerView;

    closed spec fn view(&self) -> ChangeLoggerView {
        ChangeLoggerView { base_path: self.base_path.deep_view(), records: self.records.deep_view() }
    }
}

impl ChangeLogger {
    /// An empty store that persists under `base_path`.
    pub fn new(base_path: String) -> (r: Self)
        ensures
            r@.base_path == base_path@,
            r@.records == Seq::<LoggedChangeView>::empty(),
            r@.wf(),
    {
        let r = ChangeLogger { base_path, records: Vec::new() };
        proof {
            assert(r@.records =~= Seq::<LoggedChangeView>::empty());
        }
        r
    }

    /// The directory the store persists under.
    pub fn base_path(&self) -> (r: &String)
        ensures
            r@ == self@.base_path,
    {
        &self.base_path
    }

    /// The file a record of this service and timestamp is persisted under:
    /// `{base_path}/{service}-{timestamp}.json`.
    pub fn log_file_path(&self, service: &str, timestamp: u64) -> (r: String)
        ensures
            r@ == self@.base_path + "/"@ + spec_log_file_name(service@, timestamp),
    {
        let mut name = concat_str(self.base_path.as_str(), "/");
        name.append(service);
        name.append("-");
        name.append(u64_to_dec(timestamp).as_str());
        name.append(".json");
        proof {
            assert(name@ =~= self@.base_path + "/"@ + spec_log_file_name(service@, timestamp));
        }
        name
    }

    /// Places `record` in the list: any record with the same key leaves, and
    /// the new one takes its position in newest-first order.
    fn insert_record(&mut self, record: LoggedChange)
        requires
            old(self)@.wf(),
        ensures
            final(self)@.wf(),
            final(self)@.base_path == old(self)@.base_path,
            final(self)@.records == spec_log_insert(old(self)@.records, record.deep_view()),
    {
        let ghost s0 = self@.records;
        let ghost rv = record.deep_view();
        // Remove an existing record with the same key, if any.
        let mut i: usize = 0;
        let mut found = false;
        while i < self.records.len() && !found
            invariant
                0 <= i <= self.records.len(),
                s0 == self.records.deep_view(),
                s0.len() == self.records.len(),
                rv == record.deep_view(),
                !found ==> forall|j: int|
                    0 <= j < i ==> !record_has_key(#[trigger] s0[j], rv.service, rv.timestamp),
                found ==> i < s0.len() && record_has_key(s0[i as int], rv.service, rv.timestamp)
                    && forall|j: int|
                    0 <= j < i ==> !record_has_key(#[trigger] s0[j], rv.service, rv.timestamp),
            decreases self.records.len() - i + (if found { 0int } else { 1int }),
        {
            proof {
                assert(s0[i as int] == self.records@[i as int].deep_view());
            }
            if self.records[i].timestamp == record.timestamp && str_eq(
                self.records[i].service.as_str(),
                record.service.as_str(),
            ) {
                proof {
                    assert(record_has_key(s0[i as int], rv.service, rv.timestamp));
                }
                found = true;
            } else {
                proof {
                    assert(!record_has_key(s0[i as int], rv.service, rv.timestamp));
                }
                i += 1;
            }
        }
        if found {
            proof {
                lemma_find_index_first(s0, rv.service, rv.timestamp, i as int);
            }
            self.records.remove(i);
            proof {
                assert(self.records.deep_view() =~= s0.remove(i as int));
            }
        } else {
            proof {
                lemma_find_index_none(s0, rv.service, rv.timestamp);
            }
        }
        proof {
            assert(self.records.deep_view() == spec_remove_key(s0, rv.service, rv.timestamp));
        }
        let ghost u = self.records.deep_view();
        // Find where the record belongs in newest-first order.
        let mut pos: usize = 0;
        while pos < self.records.len() && record.timestamp <= self.records[pos].timestamp
            invariant
                0 <= pos <= self.records.len(),
                u == self.records.deep_view(),
                u.len() == self.records.len(),
                rv == record.deep_view(),
                forall|j: int| 0 <= j < pos ==> (#[trigger] u[j]).timestamp >= rv.timestamp,
            decreases self.records.len() - pos,
        {
            proof {
                assert(u[pos as int] == self.records@[pos as int].deep_view());
            }
            pos += 1;
        }
        proof {
            if (pos as int) < u.len() {
                assert(u[pos as int] == self.records@[pos as int].deep_view());
            }
            lemma_insert_pos_unique(u, rv.timestamp, pos as int);
        }
        self.records.insert(pos, record);
        proof {
            assert(self.records.deep_view() =~= u.insert(pos as int, rv));
            lemma_log_insert_props(s0, rv);
        }
    }

    /// Seeds the store with one record read back from the durable medium.
    pub fn restore(&mut self, record: LoggedChange)
        requires
            old(self)@.wf(),
        ensures
            final(self)@.wf(),
            final(self)@.base_path == old(self)@.base_path,
            final(self)@.records == spec_log_insert(old(self)@.records, record.deep_view()),
    {
        self.insert_record(record);
    }

    /// Logs a change set detected at `timestamp`: builds the summary (counts
    /// and classifier tags), takes the revision from the new document
    /// (`unknown` if it carries none), stores the record under
    /// `(service, timestamp)` — replacing a record logged for the same
    /// service in the same second — and returns the stored value.
    pub fn log_changes_at(
        &mut self,
        change_set: ChangeSet,
        new_document: &DiscoveryDocument,
        timestamp: u64,
    ) -> (r: LoggedChange)
        requires
            old(self)@.wf(),
        ensures
            final(self)@.wf(),
            final(self)@.base_path == old(self)@.base_path,
            r.deep_view() == spec_logged_change(
                change_set.deep_view(),
                new_document.deep_view().revision,
                timestamp,
            ),
            final(self)@.records == spec_log_insert(old(self)@.records, r.deep_view()),
            spec_find_record(final(self)@.records, r.deep_view().service, timestamp) == Some(
                r.deep_view(),
            ),
    {
        let tags = classify_tags(&change_set);
        let summary = ChangeSummary {
            additions: change_set.additions.len(),
            modifications: change_set.modifications.len(),
            deletions: change_set.deletions.len(),
            tags,
        };
        let revision = match &new_document.revision {
            Some(s) => s.clone(),
            None => "unknown".to_owned(),
        };
        let logged = LoggedChange {
            revision,
            timestamp,
            service: change_set.service,
            summary,
            modifications: change_set.modifications,
            additions: change_set.additions,
            deletions: change_set.deletions,
        };
        proof {
            lemma_log_insert_props(self@.records, logged.deep_view());
        }
        let stored = logged.clone();
        self.insert_record(stored);
        logged
    }

    /// Logs a change set, stamping the current wall-clock second.  The
    /// returned record carries the timestamp that keyed it.
    pub fn log_changes(
        &mut self,
        change_set: ChangeSet,
        before: &DiscoveryDocument,
        after: &DiscoveryDocument,
    ) -> (r: LoggedChange)
        requires
            old(self)@.wf(),
        ensures
            final(self)@.wf(),
            final(self)@.base_path == old(self)@.base_path,
            r.deep_view() == spec_logged_change(
                change_set.deep_view(),
                after.deep_view().revision,
                r.deep_view().timestamp,
            ),
            final(self)@.records == spec_log_insert(old(self)@.records, r.deep_view()),
    {
        let timestamp = now_unix_seconds();
        self.log_changes_at(change_set, after, timestamp)
    }

    /// All records across all services, newest first, after skipping
    /// `offset` and taking at most `limit`.
    pub fn get_all_changes<'a>(&'a self, offset: usize, limit: usize) -> (r: Vec<
        &'a LoggedChange,
    >)
        ensures
            r.deep_view() == spec_page(self@.records, offset as int, limit as int),
    {
        let n = self.records.len();
        let start = if offset < n {
            offset
        } else {
            n
        };
        let mut out: Vec<&LoggedChange> = Vec::new();
        let mut i: usize = start;
        proof {
            assert(out.deep_view() =~= self@.records.subrange(start as int, start as int));
        }
        while i < n && out.len() < limit
            invariant
                start <= i <= n,
                n == self@.records.len(),
                i - start <= limit,
                out.deep_view().len() == i - start,
                out.deep_view() == self@.records.subrange(start as int, i as int),
            decreases n - i,
        {
            let ghost pre = out.deep_view();
            proof {
                assert(self@.records[i as int] == self.records@[i as int].deep_view());
            }
            out.push(&self.records[i]);
            proof {
                assert(out.deep_view() =~= pre.push(self@.records[i as int]));
                assert(out.deep_view() =~= self@.records.subrange(start as int, i + 1));
            }
            i += 1;
        }
        proof {
            assert(out.deep_view() =~= spec_page(self@.records, offset as int, limit as int));
        }
        out
    }

    /// The records whose service starts with `service`, newest first, after
    /// skipping `offset` and taking at most `limit`.  The match is on the
    /// prefix, not equality: a service also matches every longer name it is
    /// a prefix of.
    pub fn get_changes_for_service<'a>(
        &'a self,
        service: &str,
        offset: usize,
        limit: usize,
    ) -> (r: Vec<&'a LoggedChange>)
        ensures
            r.deep_view() == spec_page(
                spec_service_filter(self@.records, service@),
                offset as int,
                limit as int,
            ),
    {
        let mut matched: Vec<&LoggedChange> = Vec::new();
        let mut i: usize = 0;
        proof {
            reveal(Seq::filter);
            assert(spec_service_filter(self@.records.subrange(0, 0), service@)
                =~= Seq::<LoggedChangeView>::empty());
            assert(matched.deep_view() =~= Seq::<LoggedChangeView>::empty());
        }
        while i < self.records.len()
            invariant
                0 <= i <= self.records.len(),
                self@.records.len() == self.records.len(),
                matched.deep_view() == spec_service_filter(
                    self@.records.subrange(0, i as int),
                    service@,
                ),
            decreases self.records.len() - i,
        {
            let ghost pre = matched.deep_view();
            proof {
                assert(self@.records[i as int] == self.records@[i as int].deep_view());
            }
            if starts_with_prefix(self.records[i].service.as_str(), service) {
                matched.push(&self.records[i]);
                proof {
                    assert(matched.deep_view() =~= pre.push(self@.records[i as int]));
                }
            }
            proof {
                reveal(Seq::filter);
                let pred = |r: LoggedChangeView| service@.is_prefix_of(r.service);
                let sub0 = self@.records.subrange(0, i as int);
                let sub1 = self@.records.subrange(0, i + 1);
                assert(sub1.drop_last() =~= sub0);
                assert(sub1.last() == self@.records[i as int]);
                assert(sub1.filter(pred) == if pred(sub1.last()) {
                    sub1.drop_last().filter(pred).push(sub1.last())
                } else {
                    sub1.drop_last().filter(pred)
                });
                assert(sub1.drop_last().filter(pred) == sub0.filter(pred));
                assert(matched.deep_view() == spec_service_filter(sub1, service@));
            }
            i += 1;
        }
        proof {
            assert(self@.records.subrange(0, self@.records.len() as int) =~= self@.records);
        }
        page_refs(matched, offset, limit)
    }

    /// The record stored under exactly `(service, timestamp)`; misses are a
    /// normal outcome, reported as [`LogError::NotFound`].
    pub fn get_specific_change<'a>(&'a self, service: &str, timestamp: u64) -> (r: Result<
        &'a LoggedChange,
        LogError,
    >)
        ensures
            match r {
                Ok(c) => spec_find_record(self@.records, service@, timestamp) == Some(
                    c.deep_view(),
                ),
                Err(e) => e is NotFound && spec_find_record(self@.records, service@, timestamp)
                    is None,
            },
    {
        let mut i: usize = 0;
        while i < self.records.len()
            invariant
                0 <= i <= self.records.len(),
                forall|j: int|
                    0 <= j < i ==> !record_has_key(
                        #[trigger] self@.records[j],
                        service@,
                        timestamp,
                    ),
            decreases self.records.len() - i,
        {
            proof {
                assert(self@.records[i as int] == self.records@[i as int].deep_view());
            }
            if self.records[i].timestamp == timestamp && str_eq(
                self.records[i].service.as_str(),
                service,
            ) {
                proof {
                    lemma_find_index_first(self@.records, service@, timestamp, i as int);
                }
                return Ok(&self.records[i]);
            }
            i += 1;
        }
        proof {
            lemma_find_index_none(self@.records, service@, timestamp);
        }
        Err(LogError::NotFound)
    }
}

/// The page of a reference list that skips `offset` entries and holds at
/// most `limit`.
fn page_refs<'a>(v: Vec<&'a LoggedChange>, offset: usize, limit: usize) -> (r: Vec<
    &'a LoggedChange,
>)
    ensures
        r.deep_view() == spec_page(v.deep_view(), offset as int, limit as int),
{
    let n = v.len();
    let start = if offset < n {
        offset
    } else {
        n
    };
    let mut out: Vec<&LoggedChange> = Vec::new();
    let mut i: usize = start;
    proof {
        assert(out.deep_view() =~= v.deep_view().subrange(start as int, start as int));
    }
    while i < n && out.len() < limit
        invariant
            start <= i <= n,
            n == v.deep_view().len(),
            n == v@.len(),
            i - start <= limit,
            out.deep_view().len() == i - start,
            out.deep_view() == v.deep_view().subrange(start as int, i as int),
        decreases n - i,
    {
        let ghost pre = out.deep_view();
        proof {
            assert(v.deep_view()[i as int] == v@[i as int].deep_view());
        }
        out.push(v[i]);
        proof {
            assert(out.deep_view() =~= pre.push(v.deep_view()[i as int]));
            assert(out.deep_view() =~= v.deep_view().subrange(start as int, i + 1));
        }
        i += 1;
    }
    proof {
        assert(out.deep_view() =~= spec_page(v.deep_view(), offset as int, limit as int));
    }
    out
}

} // verus!
