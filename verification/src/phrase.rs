//! Wording helpers for entity replies: plural forms of unit and building
//! names, and the display names of the game's ages.

use vstd::prelude::*;
use vstd::string::{StrSliceExecFns, StringExecFns};
use crate::text::{has_prefix, has_suffix, str_eq, substr_string};

verus! {

/// What `str::to_lowercase` maps a string to.
pub uninterp spec fn lower_of(s: Seq<char>) -> Seq<char>;

/// Relies on `str::to_lowercase`: the result is a function of the
/// characters alone.
#[verifier::external_body]
fn to_lower(s: &str) -> (r: String)
    ensures
        r@ == lower_of(s@),
{
    s.to_lowercase()
}

/// The plural of an already lowercased entity name: `-man` becomes
/// `-men`, a leading `man-` becomes `men-` (except for the mangonel),
/// `-y` becomes `-ies`, the condottiero has his own plural, and
/// everything else takes an `s`.
pub open spec fn plural_of(t: Seq<char>) -> Seq<char> {
    if t.len() >= 3 && t.subrange(t.len() - 3, t.len() as int) == "man"@ {
        t.subrange(0, t.len() - 2) + "en"@
    } else if t.len() >= 3 && t.subrange(0, 3) == "man"@ && t != "mangonel"@ {
        t.subrange(0, 1) + "e"@ + t.subrange(2, t.len() as int)
    } else if t.len() >= 1 && t.subrange(t.len() - 1, t.len() as int) == "y"@ {
        t.subrange(0, t.len() - 1) + "ies"@
    } else if t == "condottiero"@ {
        "condottieri"@
    } else {
        t + "s"@
    }
}

/// Lowercases an entity name and puts it in the plural.
pub fn plural_lowercase(s: &str) -> (r: String)
    ensures
        r@ == plural_of(lower_of(s@)),
{
    let low = to_lower(s);
    let ls = low.as_str();
    let n = ls.unicode_len();
    if has_suffix(ls, "man") {
        proof {
            reveal_strlit("man");
        }
        substr_string(ls, 0, n - 2).concat("en")
    } else if has_prefix(ls, "man") && !str_eq(ls, "mangonel") {
        proof {
            reveal_strlit("man");
        }
        substr_string(ls, 0, 1).concat("e").concat(ls.substring_char(2, n))
    } else if has_suffix(ls, "y") {
        proof {
            reveal_strlit("y");
        }
        substr_string(ls, 0, n - 1).concat("ies")
    } else if str_eq(ls, "condottiero") {
        String::from_str("condottieri")
    } else {
        low.concat("s")
    }
}

/// The display name of an age given its index in the game data.
pub open spec fn age_name(a: Seq<char>) -> Seq<char> {
    if a == "0"@ {
        "dark age"@
    } else if a == "1"@ {
        "feudal age"@
    } else if a == "2"@ {
        "castle age"@
    } else if a == "3"@ {
        "imperial age"@
    } else {
        "?"@
    }
}

/// Maps an age index from the game data to its display name.
pub fn map_age(age: &str) -> (r: String)
    ensures
        r@ == age_name(age@),
{
    if str_eq(age, "0") {
        String::from_str("dark age")
    } else if str_eq(age, "1") {
        String::from_str("feudal age")
    } else if str_eq(age, "2") {
        String::from_str("castle age")
    } else if str_eq(age, "3") {
        String::from_str("imperial age")
    } else {
        String::from_str("?")
    }
}

} // verus!
