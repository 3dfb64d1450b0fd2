//! Parser for the match table's relative time column.
//!
//! The page shows when a match finished in one of three shapes:
//! `"Today, H:MM AM"` (or `PM`), `"Yesterday, H:MM AM"`, or
//! `"<N> minutes ago"`. Anything else is unrecognized and the row it came
//! from is simply left out of the tally.
//!
//! Timestamps are whole seconds; a parsed wall-clock time lands on the
//! minute within the day that `now` belongs to.

use vstd::prelude::*;
use crate::text::{has_prefix, has_suffix, is_space, is_space_char, trim_front};
use vstd::string::StrSliceExecFns;

verus! {

/// The largest `now` the time functions accept, comfortably past any real
/// clock reading while keeping the day arithmetic inside `i64`.
pub const MAX_NOW: i64 = 4_000_000_000_000;

/// Midnight of the day `now` lies in.
pub open spec fn day_start(now: int) -> int {
    (now / 86400) * 86400
}

pub open spec fn is_digit_char(c: char) -> bool {
    '0' <= c && c <= '9'
}

pub open spec fn digit_val(c: char) -> int {
    c as u32 - 0x30
}

pub open spec fn is_am_char(c: char) -> bool {
    c == 'A' || c == 'a'
}

pub open spec fn is_pm_char(c: char) -> bool {
    c == 'P' || c == 'p'
}

pub open spec fn is_m_char(c: char) -> bool {
    c == 'M' || c == 'm'
}

/// A twelve-hour clock reading `H:MM AM` / `H:MM PM` (the designator in
/// either case), as minutes after midnight. The hour runs from 1 to 12;
/// 12 AM maps to hour zero and 12 PM stays noon.
pub open spec fn clock_minutes(t: Seq<char>) -> Option<int> {
    if t.len() == 7 && is_digit_char(t[0]) && t[1] == ':' && is_digit_char(t[2]) && is_digit_char(
        t[3],
    ) && t[4] == ' ' && (is_am_char(t[5]) || is_pm_char(t[5])) && is_m_char(t[6]) {
        let h = digit_val(t[0]);
        let m = 10 * digit_val(t[2]) + digit_val(t[3]);
        if 1 <= h && m <= 59 {
            Some(hour_to_24(h, is_pm_char(t[5])) * 60 + m)
        } else {
            None
        }
    } else if t.len() == 8 && is_digit_char(t[0]) && is_digit_char(t[1]) && t[2] == ':'
        && is_digit_char(t[3]) && is_digit_char(t[4]) && t[5] == ' ' && (is_am_char(t[6])
        || is_pm_char(t[6])) && is_m_char(t[7]) {
        let h = 10 * digit_val(t[0]) + digit_val(t[1]);
        let m = 10 * digit_val(t[3]) + digit_val(t[4]);
        if 1 <= h && h <= 12 && m <= 59 {
            Some(hour_to_24(h, is_pm_char(t[6])) * 60 + m)
        } else {
            None
        }
    } else {
        None
    }
}

pub open spec fn hour_to_24(h: int, pm: bool) -> int {
    if pm {
        if h == 12 {
            12
        } else {
            h + 12
        }
    } else {
        if h == 12 {
            0
        } else {
            h
        }
    }
}

/// The leading whitespace-delimited token of `s`, which is what the
/// minutes-ago form reads its count from.
pub open spec fn take_until_space(s: Seq<char>) -> Seq<char>
    decreases s.len(),
{
    if s.len() == 0 || is_space_char(s.first()) {
        Seq::empty()
    } else {
        seq![s.first()] + take_until_space(s.drop_first())
    }
}

pub open spec fn first_token(s: Seq<char>) -> Seq<char> {
    take_until_space(trim_front(s))
}

/// A minute count of at most two digits, capped at 59 as a minute field is.
pub open spec fn token_minutes(t: Seq<char>) -> Option<int> {
    if t.len() == 1 && is_digit_char(t[0]) {
        Some(digit_val(t[0]))
    } else if t.len() == 2 && is_digit_char(t[0]) && is_digit_char(t[1]) {
        let v = 10 * digit_val(t[0]) + digit_val(t[1]);
        if v <= 59 {
            Some(v)
        } else {
            None
        }
    } else {
        None
    }
}

/// What a time cell means, relative to `now`:
/// `"Today, H:MM AM/PM"` is that clock time on `now`'s day,
/// `"Yesterday, H:MM AM/PM"` the same one day earlier, and
/// `"<N> minutes ago"` is `now` minus `N` minutes. Anything else is
/// unrecognized.
pub open spec fn rel_time(s: Seq<char>, now: int) -> Option<int> {
    if s.len() >= 7 && s.subrange(0, 7) == "Today, "@ {
        match clock_minutes(s.skip(7)) {
            Option::Some(mins) => Some(day_start(now) + mins * 60),
            Option::None => None,
        }
    } else if s.len() >= 11 && s.subrange(0, 11) == "Yesterday, "@ {
        match clock_minutes(s.skip(11)) {
            Option::Some(mins) => Some(day_start(now) - 86400 + mins * 60),
            Option::None => None,
        }
    } else if s.len() >= 12 && s.subrange(s.len() - 12, s.len() as int) == " minutes ago"@ {
        match token_minutes(first_token(s)) {
            Option::Some(v) => Some(now - v * 60),
            Option::None => None,
        }
    } else {
        None
    }
}

/// Reads a twelve-hour clock such as `3:15 PM` as minutes after midnight.
fn parse_clock(t: &str) -> (r: Option<u32>)
    ensures
        match r {
            Option::Some(v) => clock_minutes(t@) == Some(v as int),
            Option::None => clock_minutes(t@) is None,
        },
{
    let n = t.unicode_len();
    if n != 7 && n != 8 {
        return None;
    }
    let colon: usize = if n == 7 {
        1
    } else {
        2
    };
    let c0 = t.get_char(0);
    if !(c0 >= '0' && c0 <= '9') {
        return None;
    }
    let mut h: u32 = c0 as u32 - 0x30;
    if n == 8 {
        let c1 = t.get_char(1);
        if !(c1 >= '0' && c1 <= '9') {
            return None;
        }
        h = 10 * h + (c1 as u32 - 0x30);
    }
    if t.get_char(colon) != ':' {
        return None;
    }
    let c2 = t.get_char(colon + 1);
    let c3 = t.get_char(colon + 2);
    if !(c2 >= '0' && c2 <= '9') || !(c3 >= '0' && c3 <= '9') {
        return None;
    }
    let m: u32 = 10 * (c2 as u32 - 0x30) + (c3 as u32 - 0x30);
    if t.get_char(colon + 3) != ' ' {
        return None;
    }
    let d = t.get_char(colon + 4);
    let md = t.get_char(colon + 5);
    let pm = d == 'P' || d == 'p';
    if !(pm || d == 'A' || d == 'a') || !(md == 'M' || md == 'm') {
        return None;
    }
    if h < 1 || h > 12 || m > 59 {
        return None;
    }
    let h24: u32 = if pm {
        if h == 12 {
            12
        } else {
            h + 12
        }
    } else {
        if h == 12 {
            0
        } else {
            h
        }
    };
    Some(h24 * 60 + m)
}

/// Parses one time cell of the match table relative to `now` (seconds).
pub fn parse_time(s: &str, now: i64) -> (r: Option<i64>)
    requires
        0 <= now <= MAX_NOW,
    ensures
        match r {
            Option::Some(ts) => rel_time(s@, now as int) == Some(ts as int),
            Option::None => rel_time(s@, now as int) is None,
        },
{
    let n = s.unicode_len();
    if has_prefix(s, "Today, ") {
        proof {
            reveal_strlit("Today, ");
        }
        let rest = s.substring_char(7, n);
        proof {
            assert(rest@ =~= s@.skip(7));
        }
        match parse_clock(rest) {
            Option::Some(mins) => Some(now / 86400 * 86400 + (mins as i64) * 60),
            Option::None => None,
        }
    } else if has_prefix(s, "Yesterday, ") {
        proof {
            reveal_strlit("Yesterday, ");
            reveal_strlit("Today, ");
        }
        let rest = s.substring_char(11, n);
        proof {
            assert(rest@ =~= s@.skip(11));
        }
        match parse_clock(rest) {
            Option::Some(mins) => Some(now / 86400 * 86400 - 86400 + (mins as i64) * 60),
            Option::None => None,
        }
    } else if has_suffix(s, " minutes ago") {
        proof {
            reveal_strlit("Today, ");
            reveal_strlit("Yesterday, ");
            reveal_strlit(" minutes ago");
        }
        match minutes_token(s, n) {
            Option::Some(v) => Some(now - (v as i64) * 60),
            Option::None => None,
        }
    } else {
        proof {
            reveal_strlit("Today, ");
            reveal_strlit("Yesterday, ");
            reveal_strlit(" minutes ago");
        }
        None
    }
}

/// Reads the leading token of `s` as a minute count.
fn minutes_token(s: &str, n: usize) -> (r: Option<u32>)
    requires
        n == s@.len(),
    ensures
        match r {
            Option::Some(v) => token_minutes(first_token(s@)) == Some(v as int),
            Option::None => token_minutes(first_token(s@)) is None,
        },
{
    proof {
        assert(s@.subrange(0, n as int) =~= s@);
    }
    let mut ts: usize = 0;
    while ts < n && is_space(s.get_char(ts))
        invariant
            n == s@.len(),
            ts <= n,
            trim_front(s@) == trim_front(s@.subrange(ts as int, n as int)),
        decreases n - ts,
    {
        proof {
            let cur = s@.subrange(ts as int, n as int);
            assert(cur.drop_first() =~= s@.subrange(ts + 1, n as int));
        }
        ts = ts + 1;
    }
    proof {
        assert(trim_front(s@) =~= s@.subrange(ts as int, n as int));
    }
    let mut te: usize = ts;
    while te < n && !is_space(s.get_char(te))
        invariant
            n == s@.len(),
            ts <= te <= n,
            trim_front(s@) == s@.subrange(ts as int, n as int),
            take_until_space(s@.subrange(ts as int, n as int)) == s@.subrange(
                ts as int,
                te as int,
            ) + take_until_space(s@.subrange(te as int, n as int)),
        decreases n - te,
    {
        proof {
            let cur = s@.subrange(te as int, n as int);
            assert(cur.drop_first() =~= s@.subrange(te + 1, n as int));
            assert(s@.subrange(ts as int, te as int) + seq![s@[te as int]] =~= s@.subrange(
                ts as int,
                te + 1,
            ));
            assert(s@.subrange(ts as int, te as int) + (seq![cur.first()] + take_until_space(
                cur.drop_first(),
            )) =~= (s@.subrange(ts as int, te as int) + seq![cur.first()]) + take_until_space(
                cur.drop_first(),
            ));
        }
        te = te + 1;
    }
    proof {
        assert(take_until_space(s@.subrange(ts as int, n as int)) =~= s@.subrange(
            ts as int,
            te as int,
        ));
        assert(first_token(s@) == s@.subrange(ts as int, te as int));
    }
    let len = te - ts;
    if len == 1 {
        let c = s.get_char(ts);
        if c >= '0' && c <= '9' {
            Some(c as u32 - 0x30)
        } else {
            None
        }
    } else if len == 2 {
        let c0 = s.get_char(ts);
        let c1 = s.get_char(ts + 1);
        if c0 >= '0' && c0 <= '9' && c1 >= '0' && c1 <= '9' {
            let v = 10 * (c0 as u32 - 0x30) + (c1 as u32 - 0x30);
            if v <= 59 {
                Some(v)
            } else {
                None
            }
        } else {
            None
        }
    } else {
        None
    }
}

} // verus!
