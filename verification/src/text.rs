//! Character-level text utilities: substring search, splitting, trimming,
//! and case folding. Everything the parsers need to scan the remote
//! platform's replies is specified and proved here once.

use vstd::prelude::*;
use vstd::string::{StrSliceExecFns, StringExecFns};

verus! {

/// The characters `char::is_whitespace` recognizes (the Unicode White_Space
/// property), written out so trimming has an exact meaning.
pub open spec fn is_space_char(c: char) -> bool {
    let u = c as u32;
    u == 0x20 || u == 0x09 || u == 0x0a || u == 0x0d || u == 0x0b || u == 0x0c || u == 0x85
        || u == 0xa0 || u == 0x1680 || (0x2000 <= u && u <= 0x200a) || u == 0x2028 || u == 0x2029
        || u == 0x202f || u == 0x205f || u == 0x3000
}

pub fn is_space(c: char) -> (r: bool)
    ensures
        r == is_space_char(c),
{
    let u = c as u32;
    u == 0x20 || u == 0x09 || u == 0x0a || u == 0x0d || u == 0x0b || u == 0x0c || u == 0x85
        || u == 0xa0 || u == 0x1680 || (0x2000 <= u && u <= 0x200a) || u == 0x2028 || u == 0x2029
        || u == 0x202f || u == 0x205f || u == 0x3000
}

/// Index of the first occurrence of a non-empty `pat` in `s` at or after
/// `from`, searching position by position.
pub open spec fn find_sub_from(s: Seq<char>, pat: Seq<char>, from: int) -> Option<int>
    decreases s.len() - from,
{
    if from < 0 || pat.len() == 0 || from + pat.len() > s.len() {
        None
    } else if s.subrange(from, from + pat.len() as int) == pat {
        Some(from)
    } else {
        find_sub_from(s, pat, from + 1)
    }
}

/// Skipping over positions that do not match leaves the search result alone.
proof fn lemma_find_sub_skip(s: Seq<char>, pat: Seq<char>, from: int, upto: int)
    requires
        0 <= from <= upto,
        forall|k: int|
            from <= k < upto && k + pat.len() <= s.len() ==> #[trigger] s.subrange(
                k,
                k + pat.len() as int,
            ) != pat,
    ensures
        find_sub_from(s, pat, from) == find_sub_from(s, pat, upto),
    decreases upto - from,
{
    if from < upto {
        if pat.len() == 0 {
        } else if from + pat.len() > s.len() {
            assert(upto + pat.len() > s.len());
        } else {
            lemma_find_sub_skip(s, pat, from + 1, upto);
        }
    }
}

/// Whether `pat` occurs in `s` starting exactly at `i`.
fn matches_at(s: &str, pat: &str, i: usize, n: usize, m: usize) -> (r: bool)
    requires
        n == s@.len(),
        m == pat@.len(),
        i + m <= n,
    ensures
        r == (s@.subrange(i as int, i + m as int) == pat@),
{
    let mut j: usize = 0;
    while j < m
        invariant
            n == s@.len(),
            m == pat@.len(),
            i + m <= n,
            j <= m,
            forall|k: int| 0 <= k < j ==> s@[i + k] == pat@[k],
        decreases m - j,
    {
        if s.get_char(i + j) != pat.get_char(j) {
            assert(s@.subrange(i as int, i + m as int)[j as int] != pat@[j as int]);
            return false;
        }
        j = j + 1;
    }
    assert(s@.subrange(i as int, i + m as int) =~= pat@);
    true
}

/// First occurrence of `pat` in `s` at or after `from`, as character indices.
pub fn find_sub(s: &str, pat: &str, from: usize) -> (r: Option<usize>)
    ensures
        match r {
            Some(i) => {
                &&& find_sub_from(s@, pat@, from as int) == Some(i as int)
                &&& from <= i
                &&& i + pat@.len() <= s@.len()
            },
            None => find_sub_from(s@, pat@, from as int) is None,
        },
{
    let n = s.unicode_len();
    let m = pat.unicode_len();
    if from > n || m == 0 || m > n - from {
        return None;
    }
    let mut i: usize = from;
    while i <= n - m
        invariant
            n == s@.len(),
            m == pat@.len(),
            1 <= m <= n,
            from <= i <= n - m + 1,
            forall|k: int|
                from <= k < i && k + m <= n ==> #[trigger] s@.subrange(k, k + m as int) != pat@,
        decreases n - i,
    {
        if matches_at(s, pat, i, n, m) {
            proof {
                lemma_find_sub_skip(s@, pat@, from as int, i as int);
            }
            return Some(i);
        }
        i = i + 1;
    }
    proof {
        lemma_find_sub_skip(s@, pat@, from as int, s@.len() as int);
    }
    None
}

/// An owned copy of the characters of `s` between `from` and `to`.
pub fn substr_string(s: &str, from: usize, to: usize) -> (r: String)
    requires
        from <= to <= s@.len(),
    ensures
        r@ == s@.subrange(from as int, to as int),
{
    String::from_str(s.substring_char(from, to))
}

pub fn str_eq(a: &str, b: &str) -> (r: bool)
    ensures
        r == (a@ == b@),
{
    let n = a.unicode_len();
    if n != b.unicode_len() {
        return false;
    }
    let mut j: usize = 0;
    while j < n
        invariant
            n == a@.len(),
            n == b@.len(),
            j <= n,
            forall|k: int| 0 <= k < j ==> a@[k] == b@[k],
        decreases n - j,
    {
        if a.get_char(j) != b.get_char(j) {
            return false;
        }
        j = j + 1;
    }
    assert(a@ =~= b@);
    true
}

pub fn has_prefix(s: &str, p: &str) -> (r: bool)
    ensures
        r == (p@.len() <= s@.len() && s@.subrange(0, p@.len() as int) == p@),
{
    let n = s.unicode_len();
    let m = p.unicode_len();
    if m > n {
        return false;
    }
    matches_at(s, p, 0, n, m)
}

pub fn has_suffix(s: &str, p: &str) -> (r: bool)
    ensures
        r == (p@.len() <= s@.len() && s@.subrange(
            s@.len() - p@.len(),
            s@.len() as int,
        ) == p@),
{
    let n = s.unicode_len();
    let m = p.unicode_len();
    if m > n {
        return false;
    }
    matches_at(s, p, n - m, n, m)
}

/// The pieces of `s` from `from` on, cut at each occurrence of `pat`.
pub open spec fn split_from(s: Seq<char>, pat: Seq<char>, from: int) -> Seq<Seq<char>>
    decreases s.len() - from,
    via split_from_dec
{
    match find_sub_from(s, pat, from) {
        Option::None => seq![s.subrange(from, s.len() as int)],
        Option::Some(i) => seq![s.subrange(from, i)] + split_from(s, pat, i + pat.len() as int),
    }
}

#[via_fn]
proof fn split_from_dec(s: Seq<char>, pat: Seq<char>, from: int) {
    if find_sub_from(s, pat, from) is Some {
        lemma_split_from_decreases(s, pat, from);
    }
}

proof fn lemma_split_from_decreases(s: Seq<char>, pat: Seq<char>, from: int)
    requires
        find_sub_from(s, pat, from) is Some,
    ensures
        find_sub_from(s, pat, from)->0 + pat.len() > from,
        find_sub_from(s, pat, from)->0 + pat.len() <= s.len(),
        pat.len() > 0,
    decreases s.len() - from,
{
    if from < 0 || pat.len() == 0 || from + pat.len() > s.len() {
    } else if s.subrange(from, from + pat.len() as int) == pat {
    } else {
        lemma_split_from_decreases(s, pat, from + 1);
    }
}

/// The pieces of `s`, cut at each occurrence of the non-empty `pat`.
pub fn split_str(s: &str, pat: &str) -> (r: Vec<String>)
    requires
        pat@.len() > 0,
    ensures
        r.deep_view() == split_from(s@, pat@, 0),
{
    let n = s.unicode_len();
    let m = pat.unicode_len();
    let mut out: Vec<String> = Vec::new();
    let mut cur: usize = 0;
    loop
        invariant
            n == s@.len(),
            m == pat@.len(),
            m > 0,
            cur <= n,
            split_from(s@, pat@, 0) == out.deep_view() + split_from(s@, pat@, cur as int),
        decreases n - cur,
    {
        match find_sub(s, pat, cur) {
            Option::None => {
                let piece = substr_string(s, cur, n);
                let ghost pre = out.deep_view();
                out.push(piece);
                proof {
                    assert(out.deep_view() =~= pre.push(piece@));
                    assert(pre + split_from(s@, pat@, cur as int) =~= out.deep_view());
                }
                return out;
            },
            Option::Some(i) => {
                let piece = substr_string(s, cur, i);
                let ghost pre = out.deep_view();
                out.push(piece);
                proof {
                    assert(out.deep_view() =~= pre.push(piece@));
                    assert(pre + split_from(s@, pat@, cur as int) =~= out.deep_view()
                        + split_from(s@, pat@, i + m));
                }
                cur = i + m;
            },
        }
    }
}

/// `s` without leading whitespace.
pub open spec fn trim_front(s: Seq<char>) -> Seq<char>
    decreases s.len(),
{
    if s.len() > 0 && is_space_char(s.first()) {
        trim_front(s.drop_first())
    } else {
        s
    }
}

/// `s` without trailing whitespace.
pub open spec fn trim_back(s: Seq<char>) -> Seq<char>
    decreases s.len(),
{
    if s.len() > 0 && is_space_char(s.last()) {
        trim_back(s.drop_last())
    } else {
        s
    }
}

/// What `str::trim` leaves: `s` without whitespace at either end.
pub open spec fn trim_ws(s: Seq<char>) -> Seq<char> {
    trim_back(trim_front(s))
}

pub fn trim_str(s: &str) -> (r: String)
    ensures
        r@ == trim_ws(s@),
{
    let n = s.unicode_len();
    proof {
        assert(s@.subrange(0, n as int) =~= s@);
    }
    let mut lo: usize = 0;
    while lo < n && is_space(s.get_char(lo))
        invariant
            n == s@.len(),
            lo <= n,
            trim_front(s@) == trim_front(s@.subrange(lo as int, n as int)),
        decreases n - lo,
    {
        proof {
            let cur = s@.subrange(lo as int, n as int);
            assert(cur.drop_first() =~= s@.subrange(lo + 1, n as int));
        }
        lo = lo + 1;
    }
    proof {
        assert(trim_front(s@) =~= s@.subrange(lo as int, n as int));
    }
    let mut hi: usize = n;
    while hi > lo && is_space(s.get_char(hi - 1))
        invariant
            n == s@.len(),
            lo <= hi <= n,
            trim_front(s@) == s@.subrange(lo as int, n as int),
            trim_back(s@.subrange(lo as int, n as int)) == trim_back(
                s@.subrange(lo as int, hi as int),
            ),
        decreases hi,
    {
        proof {
            let cur = s@.subrange(lo as int, hi as int);
            assert(cur.drop_last() =~= s@.subrange(lo as int, hi - 1));
        }
        hi = hi - 1;
    }
    proof {
        assert(trim_back(s@.subrange(lo as int, hi as int)) =~= s@.subrange(
            lo as int,
            hi as int,
        ));
    }
    substr_string(s, lo, hi)
}

/// The value of the last pair whose key is `key`, mirroring how repeated
/// inserts into a map leave the final one in place.
pub open spec fn last_value(ps: Seq<(Seq<char>, Seq<char>)>, key: Seq<char>) -> Option<Seq<char>>
    decreases ps.len(),
{
    if ps.len() == 0 {
        None
    } else if ps.last().0 == key {
        Some(ps.last().1)
    } else {
        last_value(ps.drop_last(), key)
    }
}

pub fn lookup_last(ps: &Vec<(String, String)>, key: &str) -> (r: Option<String>)
    ensures
        r.deep_view() == last_value(ps.deep_view(), key@),
{
    let mut i: usize = ps.len();
    proof {
        assert(ps.deep_view().subrange(0, i as int) =~= ps.deep_view());
    }
    while i > 0
        invariant
            i <= ps@.len(),
            last_value(ps.deep_view(), key@) == last_value(
                ps.deep_view().subrange(0, i as int),
                key@,
            ),
        decreases i,
    {
        proof {
            let cur = ps.deep_view().subrange(0, i as int);
            assert(cur.drop_last() =~= ps.deep_view().subrange(0, i - 1));
        }
        if str_eq(ps[i - 1].0.as_str(), key) {
            return Some(ps[i - 1].1.clone());
        }
        i = i - 1;
    }
    None
}

/// Character equality up to ASCII case, the comparison
/// `str::eq_ignore_ascii_case` makes position by position.
pub open spec fn char_eq_fold(a: char, b: char) -> bool {
    let ua = a as u32;
    let ub = b as u32;
    a == b || (0x41 <= ua && ua <= 0x5a && ub == ua + 0x20) || (0x41 <= ub && ub <= 0x5a && ua
        == ub + 0x20)
}

/// Whole-string equality up to ASCII case.
pub open spec fn ascii_eq_fold(s: Seq<char>, t: Seq<char>) -> bool {
    s.len() == t.len() && forall|i: int| 0 <= i < s.len() ==> char_eq_fold(s[i], t[i])
}

pub fn ascii_eq_ignore_case(s: &str, t: &str) -> (r: bool)
    ensures
        r == ascii_eq_fold(s@, t@),
{
    let n = s.unicode_len();
    if n != t.unicode_len() {
        return false;
    }
    let mut j: usize = 0;
    while j < n
        invariant
            n == s@.len(),
            n == t@.len(),
            j <= n,
            forall|k: int| 0 <= k < j ==> char_eq_fold(s@[k], t@[k]),
        decreases n - j,
    {
        let a = s.get_char(j) as u32;
        let b = t.get_char(j) as u32;
        let same = a == b || (0x41 <= a && a <= 0x5a && b == a + 0x20) || (0x41 <= b && b <= 0x5a
            && a == b + 0x20);
        if !same {
            return false;
        }
        j = j + 1;
    }
    true
}

} // verus!
