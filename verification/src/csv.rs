//! Parser for the remote platform's two-line comma-separated replies.
//!
//! A reply carries its field names on the first line and the values on the
//! second, paired positionally:
//!
//! ```text
//! key1,key2,key3
//! val1,val2,val3
//! ```
//!
//! A pair is kept only when both the key and the value are non-empty; a
//! missing second line yields no pairs at all.

use vstd::prelude::*;
use crate::text::{find_sub, find_sub_from, last_value, split_from, split_str, substr_string,
    trim_str, trim_ws};
use vstd::string::StrSliceExecFns;

verus! {

pub open spec fn newline_seq() -> Seq<char> {
    seq!['\n']
}

pub open spec fn comma_seq() -> Seq<char> {
    seq![',']
}

/// Positional pairing of keys with values, dropping a pair unless both
/// sides are non-empty; pairing stops at the shorter list.
pub open spec fn zip_keep(ks: Seq<Seq<char>>, vs: Seq<Seq<char>>) -> Seq<(Seq<char>, Seq<char>)>
    decreases ks.len(),
{
    if ks.len() == 0 || vs.len() == 0 {
        Seq::empty()
    } else {
        let rest = zip_keep(ks.drop_first(), vs.drop_first());
        if ks.first().len() > 0 && vs.first().len() > 0 {
            seq![(ks.first(), vs.first())] + rest
        } else {
            rest
        }
    }
}

/// The key/value pairs of a two-line reply: the first line names the
/// fields, the second carries the values, and both lines are trimmed
/// before being cut at commas. Without a second line there are no pairs.
pub open spec fn csv_pairs(s: Seq<char>) -> Seq<(Seq<char>, Seq<char>)> {
    match find_sub_from(s, newline_seq(), 0) {
        Option::None => Seq::empty(),
        Option::Some(i) => {
            if i + 1 >= s.len() {
                Seq::empty()
            } else {
                let key_line = trim_ws(s.subrange(0, i));
                let val_end = match find_sub_from(s, newline_seq(), i + 1) {
                    Option::None => s.len() as int,
                    Option::Some(j) => j,
                };
                let val_line = trim_ws(s.subrange(i + 1, val_end));
                zip_keep(
                    split_from(key_line, comma_seq(), 0),
                    split_from(val_line, comma_seq(), 0),
                )
            }
        },
    }
}

/// The value a reply carries for `key`, with a repeated field resolving to
/// its last occurrence.
pub open spec fn csv_value(s: Seq<char>, key: Seq<char>) -> Option<Seq<char>> {
    last_value(csv_pairs(s), key)
}

/// Parses a two-line reply into its key/value pairs.
pub fn parse_response(response: &str) -> (r: Vec<(String, String)>)
    ensures
        r.deep_view() == csv_pairs(response@),
{
    proof {
        reveal_strlit("\n");
        reveal_strlit(",");
        assert("\n"@ =~= newline_seq());
        assert(","@ =~= comma_seq());
    }
    let n = response.unicode_len();
    let first_nl = find_sub(response, "\n", 0);
    match first_nl {
        Option::None => {
            let r: Vec<(String, String)> = Vec::new();
            proof {
                assert(r.deep_view() =~= csv_pairs(response@));
            }
            r
        },
        Option::Some(i) => {
            if i + 1 >= n {
                let r: Vec<(String, String)> = Vec::new();
                proof {
                    assert(r.deep_view() =~= csv_pairs(response@));
                }
                r
            } else {
                let val_end = match find_sub(response, "\n", i + 1) {
                    Option::None => n,
                    Option::Some(j) => j,
                };
                let key_line = substr_string(response, 0, i);
                let val_line = substr_string(response, i + 1, val_end);
                let key_trim = trim_str(key_line.as_str());
                let val_trim = trim_str(val_line.as_str());
                let ks = split_str(key_trim.as_str(), ",");
                let vs = split_str(val_trim.as_str(), ",");
                let pairs = zip_nonempty(&ks, &vs);
                proof {
                    assert(pairs.deep_view() =~= csv_pairs(response@));
                }
                pairs
            }
        },
    }
}

/// Pairs `ks` with `vs` positionally, keeping a pair only when both sides
/// are non-empty.
fn zip_nonempty(ks: &Vec<String>, vs: &Vec<String>) -> (r: Vec<(String, String)>)
    ensures
        r.deep_view() == zip_keep(ks.deep_view(), vs.deep_view()),
{
    let shorter = if ks.len() < vs.len() {
        ks.len()
    } else {
        vs.len()
    };
    let mut out: Vec<(String, String)> = Vec::new();
    let mut idx: usize = 0;
    proof {
        assert(ks.deep_view().skip(0) =~= ks.deep_view());
        assert(vs.deep_view().skip(0) =~= vs.deep_view());
        assert(out.deep_view() + zip_keep(ks.deep_view(), vs.deep_view()) =~= zip_keep(
            ks.deep_view(),
            vs.deep_view(),
        ));
    }
    while idx < shorter
        invariant
            shorter <= ks@.len(),
            shorter <= vs@.len(),
            shorter == if ks@.len() < vs@.len() {
                ks@.len()
            } else {
                vs@.len()
            },
            idx <= shorter,
            zip_keep(ks.deep_view(), vs.deep_view()) == out.deep_view() + zip_keep(
                ks.deep_view().skip(idx as int),
                vs.deep_view().skip(idx as int),
            ),
        decreases shorter - idx,
    {
        proof {
            let kd = ks.deep_view().skip(idx as int);
            let vd = vs.deep_view().skip(idx as int);
            assert(kd.first() == ks.deep_view()[idx as int]);
            assert(vd.first() == vs.deep_view()[idx as int]);
            assert(kd.drop_first() =~= ks.deep_view().skip(idx + 1));
            assert(vd.drop_first() =~= vs.deep_view().skip(idx + 1));
        }
        if !ks[idx].as_str().is_empty() && !vs[idx].as_str().is_empty() {
            let ghost pre = out.deep_view();
            let pair = (ks[idx].clone(), vs[idx].clone());
            out.push(pair);
            proof {
                assert(out.deep_view() =~= pre.push((ks.deep_view()[idx as int],
                    vs.deep_view()[idx as int])));
                assert(zip_keep(ks.deep_view(), vs.deep_view()) =~= out.deep_view() + zip_keep(
                    ks.deep_view().skip(idx + 1),
                    vs.deep_view().skip(idx + 1),
                ));
            }
        }
        idx = idx + 1;
    }
    proof {
        assert(zip_keep(
            ks.deep_view().skip(idx as int),
            vs.deep_view().skip(idx as int),
        ) =~= Seq::<(Seq<char>, Seq<char>)>::empty());
        assert(out.deep_view() =~= out.deep_view() + Seq::<(Seq<char>, Seq<char>)>::empty());
    }
    out
}

/// Looks a key up among parsed pairs, the last occurrence winning.
pub fn pair_value(pairs: &Vec<(String, String)>, key: &str) -> (r: Option<String>)
    ensures
        r.deep_view() == last_value(pairs.deep_view(), key@),
{
    crate::text::lookup_last(pairs, key)
}

} // verus!
