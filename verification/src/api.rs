//! What the read-side query endpoints compute: pagination parameters, page
//! slicing, and the sorted diff-format rendering of one logged change.
//! Routing, serialization and the HTTP server itself are the caller's
//! concern.

use vstd::prelude::*;
use crate::change::Change;
use crate::change_logger::{ChangeLogger, LoggedChange, LoggedChangeView};
use crate::change::ChangeView;
use crate::clock::now_unix_seconds;
use crate::storage::Storage;
use crate::text::{lex_le, str_le};
use crate::value::{clone_opt_value, ChangeValue, ChangeValueView};

verus! {

/// The read-side facade: the two stores the query endpoints serve from, and
/// when the process started.
pub struct Api {
    pub storage: Storage,
    pub change_logger: ChangeLogger,
    pub start_time: u64,
}

impl Api {
    /// A facade over the two stores, stamped with the current wall-clock
    /// second as its start time.
    pub fn new(storage: Storage, change_logger: ChangeLogger) -> (r: Self)
        ensures
            r.storage@ == storage@,
            r.change_logger@ == change_logger@,
    {
        let start_time = now_unix_seconds();
        Api { storage, change_logger, start_time }
    }

    /// Seconds elapsed since the facade was built, read at `now`; a clock
    /// that moved backwards reads as no elapsed time.
    pub fn uptime_at(&self, now: u64) -> (r: u64)
        ensures
            r == if now >= self.start_time {
                now - self.start_time
            } else {
                0
            },
    {
        if now >= self.start_time {
            now - self.start_time
        } else {
            0
        }
    }
}

/// Caller-supplied pagination, both parts optional.
pub struct PaginationParams {
    pub offset: Option<usize>,
    pub max_results: Option<usize>,
}

/// The offset (default zero) and the page size (default fifty, never more
/// than fifty).
pub fn get_pagination_params(params: PaginationParams) -> (r: (usize, usize))
    ensures
        r.0 == match params.offset {
            Some(o) => o,
            None => 0usize,
        },
        r.1 == (match params.max_results {
            Some(m) => if m < 50 {
                m
            } else {
                50
            },
            None => 50usize,
        }),
{
    let offset = match params.offset {
        Some(o) => o,
        None => 0,
    };
    let max_results = match params.max_results {
        Some(m) => if m < 50 {
            m
        } else {
            50
        },
        None => 50,
    };
    (offset, max_results)
}

/// At most `max_results` of the records, and whether more were left: how a
/// listing endpoint answers a page query made with one extra record.
pub fn take_page_with_more<'a>(changes: Vec<&'a LoggedChange>, max_results: usize) -> (r: (
    Vec<&'a LoggedChange>,
    bool,
))
    ensures
        r.1 == (changes.deep_view().len() > max_results),
        r.0.deep_view() == changes.deep_view().take(
            if max_results <= changes.deep_view().len() {
                max_results as int
            } else {
                changes.deep_view().len() as int
            },
        ),
{
    let has_more = changes.len() > max_results;
    let n = if max_results < changes.len() {
        max_results
    } else {
        changes.len()
    };
    let mut out: Vec<&LoggedChange> = Vec::new();
    let mut i: usize = 0;
    proof {
        assert(out.deep_view() =~= changes.deep_view().take(0));
    }
    while i < n
        invariant
            0 <= i <= n,
            n <= changes.len(),
            changes.deep_view().len() == changes.len(),
            out.deep_view() == changes.deep_view().take(i as int),
        decreases n - i,
    {
        let ghost pre = out.deep_view();
        proof {
            assert(changes.deep_view()[i as int] == changes@[i as int].deep_view());
        }
        out.push(changes[i]);
        proof {
            assert(out.deep_view() =~= pre.push(changes.deep_view()[i as int]));
            assert(out.deep_view() =~= changes.deep_view().take(i + 1));
        }
        i += 1;
    }
    (out, has_more)
}

// ---------------------------------------------------------------------------
// The diff-format rendering of one logged change
// ---------------------------------------------------------------------------

/// One line of the diff-format rendering: `+` for an addition, `-` for a
/// deletion, `M` for a modification.
pub struct DiffEntry {
    pub change_type: String,
    pub path: String,
    pub old_value: Option<ChangeValue>,
    pub new_value: Option<ChangeValue>,
}

#[verifier::ext_equal]
pub struct DiffEntryView {
    pub change_type: Seq<char>,
    pub path: Seq<char>,
    pub old_value: Option<ChangeValueView>,
    pub new_value: Option<ChangeValueView>,
}

impl DeepView for DiffEntry {
    type V = DiffEntryView;

    open spec fn deep_view(&self) -> DiffEntryView {
        DiffEntryView {
            change_type: self.change_type.deep_view(),
            path: self.path.deep_view(),
            old_value: self.old_value.deep_view(),
            new_value: self.new_value.deep_view(),
        }
    }
}

/// The entry of an addition: the carried value becomes the new value.
pub open spec fn spec_addition_entry(c: ChangeView) -> DiffEntryView {
    DiffEntryView { change_type: "+"@, path: c.path, old_value: None, new_value: c.value }
}

/// The entry of a deletion: only the old value, where one was carried.
pub open spec fn spec_deletion_entry(c: ChangeView) -> DiffEntryView {
    DiffEntryView { change_type: "-"@, path: c.path, old_value: c.old_value, new_value: None }
}

/// The entry of a modification: both sides.
pub open spec fn spec_modification_entry(c: ChangeView) -> DiffEntryView {
    DiffEntryView {
        change_type: "M"@,
        path: c.path,
        old_value: c.old_value,
        new_value: c.new_value,
    }
}

/// The position a path sorts to: after every entry whose path does not come
/// later, so that equal paths keep their order.
pub open spec fn spec_path_pos(s: Seq<DiffEntryView>, p: Seq<char>) -> int
    decreases s.len(),
{
    if s.len() == 0 {
        0
    } else if !lex_le(s[0].path, p) {
        0
    } else {
        1 + spec_path_pos(s.skip(1), p)
    }
}

/// The list with `e` placed at its path's position.
pub open spec fn spec_place_by_path(s: Seq<DiffEntryView>, e: DiffEntryView) -> Seq<
    DiffEntryView,
> {
    s.insert(spec_path_pos(s, e.path), e)
}

/// The list sorted by path, equal paths keeping their order.
pub open spec fn spec_sort_by_path(s: Seq<DiffEntryView>) -> Seq<DiffEntryView>
    decreases s.len(),
{
    if s.len() == 0 {
        s
    } else {
        spec_place_by_path(spec_sort_by_path(s.drop_last()), s.last())
    }
}

/// The diff-format rendering: additions, then deletions, then modifications,
/// each group sorted by path.
pub open spec fn spec_diff_entries(lc: LoggedChangeView) -> Seq<DiffEntryView> {
    spec_sort_by_path(lc.additions.map_values(|c: ChangeView| spec_addition_entry(c)))
        + spec_sort_by_path(lc.deletions.map_values(|c: ChangeView| spec_deletion_entry(c)))
        + spec_sort_by_path(lc.modifications.map_values(|c: ChangeView| spec_modification_entry(c)))
}

/// The path's position is within the list; everything before it comes no
/// later than `p`, and the entry at it, if any, comes strictly later.
proof fn lemma_path_pos_props(s: Seq<DiffEntryView>, p: Seq<char>)
    ensures
        0 <= spec_path_pos(s, p) <= s.len(),
        forall|j: int| 0 <= j < spec_path_pos(s, p) ==> lex_le((#[trigger] s[j]).path, p),
        spec_path_pos(s, p) < s.len() ==> !lex_le(s[spec_path_pos(s, p)].path, p),
    decreases s.len(),
{
    if s.len() > 0 && lex_le(s[0].path, p) {
        lemma_path_pos_props(s.skip(1), p);
        assert(forall|j: int| 0 <= j < s.skip(1).len() ==> #[trigger] s.skip(1)[j] == s[j + 1]);
        let pos = spec_path_pos(s, p);
        assert forall|j: int| 0 <= j < pos implies lex_le((#[trigger] s[j]).path, p) by {
            if j > 0 {
                assert(s.skip(1)[j - 1] == s[j]);
            }
        }
    }
}

/// Any position with those properties is the path's position.
proof fn lemma_path_pos_unique(s: Seq<DiffEntryView>, p: Seq<char>, q: int)
    requires
        0 <= q <= s.len(),
        forall|j: int| 0 <= j < q ==> lex_le((#[trigger] s[j]).path, p),
        q < s.len() ==> !lex_le(s[q].path, p),
    ensures
        spec_path_pos(s, p) == q,
    decreases s.len(),
{
    if s.len() > 0 && lex_le(s[0].path, p) {
        assert(q >= 1);
        assert(forall|j: int|
            0 <= j < q - 1 ==> #[trigger] s.skip(1)[j] == s[j + 1] && lex_le(s[j + 1].path, p));
        if q - 1 < s.skip(1).len() {
            assert(s.skip(1)[q - 1] == s[q]);
        }
        lemma_path_pos_unique(s.skip(1), p, q - 1);
    }
}

/// Places one entry at its path's position.
fn place_entry_by_path(list: &mut Vec<DiffEntry>, entry: DiffEntry)
    ensures
        final(list).deep_view() == spec_place_by_path(old(list).deep_view(), entry.deep_view()),
{
    let ghost s = list.deep_view();
    let ghost p = entry.deep_view().path;
    let mut pos: usize = 0;
    while pos < list.len() && str_le(list[pos].path.as_str(), entry.path.as_str())
        invariant
            0 <= pos <= list.len(),
            s == list.deep_view(),
            s.len() == list.len(),
            p == entry.deep_view().path,
            forall|j: int| 0 <= j < pos ==> lex_le((#[trigger] s[j]).path, p),
        decreases list.len() - pos,
    {
        proof {
            assert(s[pos as int] == list@[pos as int].deep_view());
        }
        pos += 1;
    }
    proof {
        if (pos as int) < s.len() {
            assert(s[pos as int] == list@[pos as int].deep_view());
        }
        lemma_path_pos_unique(s, p, pos as int);
    }
    list.insert(pos, entry);
    proof {
        assert(list.deep_view() =~= s.insert(spec_path_pos(s, p), entry.deep_view()));
    }
}

/// The diff-format rendering of one logged change: one line per change, `+`
/// lines first, then `-`, then `M`, each group sorted by path, values carried
/// over as [`spec_diff_entries`] says.
pub fn diff_format_entries(change: &LoggedChange) -> (r: Vec<DiffEntry>)
    ensures
        r.deep_view() == spec_diff_entries(change.deep_view()),
{
    let mut additions = sorted_addition_entries(&change.additions);
    let mut deletions = sorted_deletion_entries(&change.deletions);
    let mut modifications = sorted_modification_entries(&change.modifications);
    let ghost av = additions.deep_view();
    let ghost dv = deletions.deep_view();
    let ghost mv = modifications.deep_view();
    additions.append(&mut deletions);
    additions.append(&mut modifications);
    proof {
        assert(additions.deep_view() =~= (av + dv) + mv);
        assert((av + dv) + mv =~= spec_diff_entries(change.deep_view()));
    }
    additions
}

/// The `+` lines of the additions, sorted by path.
fn sorted_addition_entries(changes: &Vec<Change>) -> (r: Vec<DiffEntry>)
    ensures
        r.deep_view() == spec_sort_by_path(
            changes.deep_view().map_values(|c: ChangeView| spec_addition_entry(c)),
        ),
{
    let ghost cv = changes.deep_view();
    let mut out: Vec<DiffEntry> = Vec::new();
    let mut i: usize = 0;
    proof {
        assert(cv.take(0).map_values(|c: ChangeView| spec_addition_entry(c))
            =~= Seq::<DiffEntryView>::empty());
        assert(out.deep_view() =~= spec_sort_by_path(
            cv.take(0).map_values(|c: ChangeView| spec_addition_entry(c)),
        ));
    }
    while i < changes.len()
        invariant
            0 <= i <= changes.len(),
            cv == changes.deep_view(),
            cv.len() == changes.len(),
            out.deep_view() == spec_sort_by_path(
                cv.take(i as int).map_values(|c: ChangeView| spec_addition_entry(c)),
            ),
        decreases changes.len() - i,
    {
        proof {
            assert(cv[i as int] == changes@[i as int].deep_view());
        }
        let entry = DiffEntry {
            change_type: "+".to_owned(),
            path: changes[i].path.clone(),
            old_value: None,
            new_value: clone_opt_value(&changes[i].value),
        };
        place_entry_by_path(&mut out, entry);
        proof {
            let f = |c: ChangeView| spec_addition_entry(c);
            let m0 = cv.take(i as int).map_values(f);
            let m1 = cv.take(i + 1).map_values(f);
            assert(m1.drop_last() =~= m0);
            assert(m1.last() == f(cv[i as int]));
            assert(out.deep_view() == spec_sort_by_path(m1));
        }
        i += 1;
    }
    proof {
        assert(cv.take(cv.len() as int) =~= cv);
    }
    out
}

/// The `-` lines of the deletions, sorted by path.
fn sorted_deletion_entries(changes: &Vec<Change>) -> (r: Vec<DiffEntry>)
    ensures
        r.deep_view() == spec_sort_by_path(
            changes.deep_view().map_values(|c: ChangeView| spec_deletion_entry(c)),
        ),
{
    let ghost cv = changes.deep_view();
    let mut out: Vec<DiffEntry> = Vec::new();
    let mut i: usize = 0;
    proof {
        assert(cv.take(0).map_values(|c: ChangeView| spec_deletion_entry(c))
            =~= Seq::<DiffEntryView>::empty());
        assert(out.deep_view() =~= spec_sort_by_path(
            cv.take(0).map_values(|c: ChangeView| spec_deletion_entry(c)),
        ));
    }
    while i < changes.len()
        invariant
            0 <= i <= changes.len(),
            cv == changes.deep_view(),
            cv.len() == changes.len(),
            out.deep_view() == spec_sort_by_path(
                cv.take(i as int).map_values(|c: ChangeView| spec_deletion_entry(c)),
            ),
        decreases changes.len() - i,
    {
        proof {
            assert(cv[i as int] == changes@[i as int].deep_view());
        }
        let entry = DiffEntry {
            change_type: "-".to_owned(),
            path: changes[i].path.clone(),
            old_value: clone_opt_value(&changes[i].old_value),
            new_value: None,
        };
        place_entry_by_path(&mut out, entry);
        proof {
            let f = |c: ChangeView| spec_deletion_entry(c);
            let m0 = cv.take(i as int).map_values(f);
            let m1 = cv.take(i + 1).map_values(f);
            assert(m1.drop_last() =~= m0);
            assert(m1.last() == f(cv[i as int]));
            assert(out.deep_view() == spec_sort_by_path(m1));
        }
        i += 1;
    }
    proof {
        assert(cv.take(cv.len() as int) =~= cv);
    }
    out
}

/// The `M` lines of the modifications, sorted by path.
fn sorted_modification_entries(changes: &Vec<Change>) -> (r: Vec<DiffEntry>)
    ensures
        r.deep_view() == spec_sort_by_path(
            changes.deep_view().map_values(|c: ChangeView| spec_modification_entry(c)),
        ),
{
    let ghost cv = changes.deep_view();
    let mut out: Vec<DiffEntry> = Vec::new();
    let mut i: usize = 0;
    proof {
        assert(cv.take(0).map_values(|c: ChangeView| spec_modification_entry(c))
            =~= Seq::<DiffEntryView>::empty());
        assert(out.deep_view() =~= spec_sort_by_path(
            cv.take(0).map_values(|c: ChangeView| spec_modification_entry(c)),
        ));
    }
    while i < changes.len()
        invariant
            0 <= i <= changes.len(),
            cv == changes.deep_view(),
            cv.len() == changes.len(),
            out.deep_view() == spec_sort_by_path(
                cv.take(i as int).map_values(|c: ChangeView| spec_modification_entry(c)),
            ),
        decreases changes.len() - i,
    {
        proof {
            assert(cv[i as int] == changes@[i as int].deep_view());
        }
        let entry = DiffEntry {
            change_type: "M".to_owned(),
            path: changes[i].path.clone(),
            old_value: clone_opt_value(&changes[i].old_value),
            new_value: clone_opt_value(&changes[i].new_value),
        };
        place_entry_by_path(&mut out, entry);
        proof {
            let f = |c: ChangeView| spec_modification_entry(c);
            let m0 = cv.take(i as int).map_values(f);
            let m1 = cv.take(i + 1).map_values(f);
            assert(m1.drop_last() =~= m0);
            assert(m1.last() == f(cv[i as int]));
            assert(out.deep_view() == spec_sort_by_path(m1));
        }
        i += 1;
    }
    proof {
        assert(cv.take(cv.len() as int) =~= cv);
    }
    out
}

} // verus!
