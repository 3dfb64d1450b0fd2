//! Scanner for the match table's winner and loser cells.
//!
//! A cell holds one line per participant, separated by `<br>` markers.
//! Within a line, text sits between the end of an anchor's opening tag
//! (the first `">` sequence) and the anchor's closing `</a>`. A line with
//! two such captures names a team first and the player second; a line
//! with one names just the player; a line whose markers are missing or
//! out of order contributes nothing.

use vstd::prelude::*;
use crate::text::{find_sub, find_sub_from, split_from, split_str, substr_string};
use vstd::string::StrSliceExecFns;

verus! {

pub open spec fn br_seq() -> Seq<char> {
    seq!['<', 'b', 'r', '>']
}

pub open spec fn quote_gt_seq() -> Seq<char> {
    seq!['"', '>']
}

pub open spec fn close_anchor_seq() -> Seq<char> {
    seq!['<', '/', 'a', '>']
}

/// What one `<br>`-separated line contributes: a (team, player) pair, a
/// lone player, or nothing. Captures are bounded by the first `">` and
/// `</a>` markers; a second marker pair promotes the first capture to a
/// team label.
pub open spec fn participant_of(seg: Seq<char>) -> Option<(Option<Seq<char>>, Seq<char>)> {
    let q1 = find_sub_from(seg, quote_gt_seq(), 0);
    let e1 = find_sub_from(seg, close_anchor_seq(), 0);
    if q1 is Some && e1 is Some {
        let start1 = q1->0 + 2;
        let end1 = e1->0;
        if start1 < end1 {
            let cap1 = seg.subrange(start1, end1);
            let q2 = find_sub_from(seg, quote_gt_seq(), start1);
            let e2 = find_sub_from(seg, close_anchor_seq(), end1 + 4);
            if q2 is Some && e2 is Some {
                let start2 = q2->0 + 2;
                let end2 = e2->0;
                if start2 < end2 {
                    Some((Some(cap1), seg.subrange(start2, end2)))
                } else {
                    None
                }
            } else {
                Some((None, cap1))
            }
        } else {
            None
        }
    } else {
        None
    }
}

pub open spec fn participants_from(segs: Seq<Seq<char>>) -> Seq<(Option<Seq<char>>, Seq<char>)>
    decreases segs.len(),
{
    if segs.len() == 0 {
        Seq::empty()
    } else {
        let rest = participants_from(segs.drop_first());
        match participant_of(segs.first()) {
            Option::Some(p) => seq![p] + rest,
            Option::None => rest,
        }
    }
}

/// Every participant a cell names, in the order its lines name them.
pub open spec fn participants_of(cell: Seq<char>) -> Seq<(Option<Seq<char>>, Seq<char>)> {
    participants_from(split_from(cell, br_seq(), 0))
}

/// What one line contributes; see [`participant_of`].
fn segment_participant(seg: &str) -> (r: Option<(Option<String>, String)>)
    ensures
        r.deep_view() == participant_of(seg@),
{
    proof {
        reveal_strlit("\">");
        reveal_strlit("</a>");
        assert("\">"@ =~= quote_gt_seq());
        assert("</a>"@ =~= close_anchor_seq());
    }
    // Binds the character count, so the index arithmetic below is known
    // to stay within `usize`.
    let _n = seg.unicode_len();
    let q1 = find_sub(seg, "\">", 0);
    let e1 = find_sub(seg, "</a>", 0);
    match (q1, e1) {
        (Option::Some(q1), Option::Some(e1)) => {
            let start1 = q1 + 2;
            if start1 < e1 {
                let cap1 = substr_string(seg, start1, e1);
                let q2 = find_sub(seg, "\">", start1);
                let e2 = find_sub(seg, "</a>", e1 + 4);
                match (q2, e2) {
                    (Option::Some(q2), Option::Some(e2)) => {
                        let start2 = q2 + 2;
                        if start2 < e2 {
                            Some((Some(cap1), substr_string(seg, start2, e2)))
                        } else {
                            None
                        }
                    },
                    _ => Some((None, cap1)),
                }
            } else {
                None
            }
        },
        _ => None,
    }
}

/// Extracts the participants a cell's markup names, one per `<br>` line:
/// the optional team label first, then the player name.
pub fn extract_names(s: &str) -> (r: Vec<(Option<String>, String)>)
    ensures
        r.deep_view() == participants_of(s@),
{
    proof {
        reveal_strlit("<br>");
        assert("<br>"@ =~= br_seq());
    }
    let segs = split_str(s, "<br>");
    let mut out: Vec<(Option<String>, String)> = Vec::new();
    let mut i: usize = 0;
    proof {
        assert(segs.deep_view().skip(0) =~= segs.deep_view());
        assert(out.deep_view() + participants_from(segs.deep_view()) =~= participants_from(
            segs.deep_view(),
        ));
    }
    while i < segs.len()
        invariant
            i <= segs@.len(),
            participants_of(s@) == out.deep_view() + participants_from(
                segs.deep_view().skip(i as int),
            ),
        decreases segs@.len() - i,
    {
        proof {
            let cur = segs.deep_view().skip(i as int);
            assert(cur.first() == segs.deep_view()[i as int]);
            assert(cur.drop_first() =~= segs.deep_view().skip(i + 1));
        }
        match segment_participant(segs[i].as_str()) {
            Option::Some(p) => {
                let ghost pre = out.deep_view();
                let ghost pv = p.deep_view();
                out.push(p);
                proof {
                    assert(out.deep_view() =~= pre.push(pv));
                    assert(pre + participants_from(segs.deep_view().skip(i as int))
                        =~= out.deep_view() + participants_from(segs.deep_view().skip(i + 1)));
                }
            },
            Option::None => {},
        }
        i = i + 1;
    }
    proof {
        assert(participants_from(segs.deep_view().skip(i as int)) =~= Seq::<(
            Option<Seq<char>>,
            Seq<char>,
        )>::empty());
        assert(out.deep_view() + Seq::<(Option<Seq<char>>, Seq<char>)>::empty()
            =~= out.deep_view());
    }
    out
}

} // verus!
