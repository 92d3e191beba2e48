//! What an outbound notification says: the role mentions for the tags of a
//! change, and the human-readable summary line.  Assembling and delivering
//! the notification payload is the caller's concern.

use vstd::prelude::*;
use crate::change_logger::ChangeSummaryView;
use crate::change_logger::ChangeSummary;
use crate::config::{TagMentionRoleId, TagMentionRoleIdView};
use crate::text::{concat_str, dec_str, join_with, spec_join, str_vec_contains, u64_to_dec};

verus! {

/// The mention string of one role.
pub open spec fn spec_mention(role_id: Seq<char>) -> Seq<char> {
    "<@&"@ + role_id + ">"@
}

/// Builds the mention string of one role.
pub fn mention_for_role(role_id: &str) -> (r: String)
    ensures
        r@ == spec_mention(role_id@),
{
    let mut m = concat_str("<@&", role_id);
    m.append(">");
    proof {
        assert(m@ =~= spec_mention(role_id@));
    }
    m
}

/// The mentions of the configured roles whose tag fired, in configuration
/// order.
pub open spec fn spec_mentions(
    tms: Seq<TagMentionRoleIdView>,
    tags: Seq<Seq<char>>,
) -> Seq<Seq<char>>
    decreases tms.len(),
{
    if tms.len() == 0 {
        Seq::empty()
    } else {
        let rest = spec_mentions(tms.drop_last(), tags);
        if tags.contains(tms.last().tag) {
            rest.push(spec_mention(tms.last().role_id))
        } else {
            rest
        }
    }
}

/// The mention string of a notification: one role mention per configured tag
/// that fired, joined with spaces.
pub fn build_mentions(tag_mention_role_ids: &Vec<TagMentionRoleId>, tags: &Vec<String>) -> (r:
    String)
    ensures
        r@ == spec_join(
            spec_mentions(tag_mention_role_ids.deep_view(), tags.deep_view()),
            " "@,
        ),
{
    let ghost tms = tag_mention_role_ids.deep_view();
    let mut mentions: Vec<String> = Vec::new();
    let mut i: usize = 0;
    proof {
        assert(mentions.deep_view() =~= spec_mentions(tms.take(0), tags.deep_view()));
    }
    while i < tag_mention_role_ids.len()
        invariant
            0 <= i <= tag_mention_role_ids.len(),
            tms == tag_mention_role_ids.deep_view(),
            tms.len() == tag_mention_role_ids.len(),
            mentions.deep_view() == spec_mentions(tms.take(i as int), tags.deep_view()),
        decreases tag_mention_role_ids.len() - i,
    {
        let ghost pre = mentions.deep_view();
        proof {
            assert(tms[i as int] == tag_mention_role_ids@[i as int].deep_view());
        }
        if str_vec_contains(tags, tag_mention_role_ids[i].tag.as_str()) {
            let m = mention_for_role(tag_mention_role_ids[i].role_id.as_str());
            mentions.push(m);
            proof {
                assert(mentions.deep_view() =~= pre.push(spec_mention(tms[i as int].role_id)));
            }
        }
        proof {
            let sub1 = tms.take(i + 1);
            assert(sub1.drop_last() =~= tms.take(i as int));
            assert(sub1.last() == tms[i as int]);
            assert(mentions.deep_view() == spec_mentions(sub1, tags.deep_view()));
        }
        i += 1;
    }
    proof {
        assert(tms.take(tms.len() as int) =~= tms);
    }
    join_with(&mentions, " ")
}

/// The lines of the summary text: one per non-zero count.
pub open spec fn spec_description_parts(s: ChangeSummaryView) -> Seq<Seq<char>> {
    (if s.additions > 0 {
        seq!["**+"@ + dec_str(s.additions as int) + "** additions"@]
    } else {
        Seq::empty()
    }) + (if s.modifications > 0 {
        seq!["**~"@ + dec_str(s.modifications as int) + "** changes"@]
    } else {
        Seq::empty()
    }) + (if s.deletions > 0 {
        seq!["**-"@ + dec_str(s.deletions as int) + "** removed"@]
    } else {
        Seq::empty()
    })
}

/// The human-readable description of a summary: its non-zero counts, one per
/// line.
pub fn build_description(summary: &ChangeSummary) -> (r: String)
    ensures
        r@ == spec_join(spec_description_parts(summary.deep_view()), "\n"@),
{
    let mut parts: Vec<String> = Vec::new();
    if summary.additions > 0 {
        let mut p = concat_str("**+", u64_to_dec(summary.additions as u64).as_str());
        p.append("** additions");
        parts.push(p);
    }
    if summary.modifications > 0 {
        let mut p = concat_str("**~", u64_to_dec(summary.modifications as u64).as_str());
        p.append("** changes");
        parts.push(p);
    }
    if summary.deletions > 0 {
        let mut p = concat_str("**-", u64_to_dec(summary.deletions as u64).as_str());
        p.append("** removed");
        parts.push(p);
    }
    proof {
        assert(parts.deep_view() =~= spec_description_parts(summary.deep_view()));
    }
    join_with(&parts, "\n")
}

} // verus!
