//! Match records and the session win/loss tally.
//!
//! The match page lists rows most recent first. A row becomes a record
//! when its time cell parses; the tally then walks the records and counts
//! wins and losses for one player until the gap between consecutive
//! matches (or between `now` and the first) exceeds three hours, which
//! ends the session and drops everything older.

use vstd::prelude::*;
use crate::clock::{rel_time, parse_time, MAX_NOW};
use crate::markup::{participants_of, extract_names};
use crate::text::str_eq;

verus! {

/// Gap in seconds above which two consecutive matches no longer belong to
/// the same play session: three hours.
pub const SESSION_GAP_SECONDS: i64 = 10800;

/// One parsed match row: when it finished, who won, who lost. Each
/// participant is an optional team label and a player name.
pub struct MatchData {
    pub time: i64,
    pub winners: Vec<(Option<String>, String)>,
    pub losers: Vec<(Option<String>, String)>,
}

impl View for MatchData {
    type V = (int, Seq<(Option<Seq<char>>, Seq<char>)>, Seq<(Option<Seq<char>>, Seq<char>)>);

    open spec fn view(&self) -> (
        int,
        Seq<(Option<Seq<char>>, Seq<char>)>,
        Seq<(Option<Seq<char>>, Seq<char>)>,
    ) {
        (self.time as int, self.winners.deep_view(), self.losers.deep_view())
    }
}

impl DeepView for MatchData {
    type V = (int, Seq<(Option<Seq<char>>, Seq<char>)>, Seq<(Option<Seq<char>>, Seq<char>)>);

    open spec fn deep_view(&self) -> (
        int,
        Seq<(Option<Seq<char>>, Seq<char>)>,
        Seq<(Option<Seq<char>>, Seq<char>)>,
    ) {
        self.view()
    }
}

/// Whether `name` appears among the player names of `ps`, by exact,
/// case-sensitive comparison.
pub open spec fn has_player(ps: Seq<(Option<String>, String)>, name: Seq<char>) -> bool {
    exists|i: int| 0 <= i < ps.len() && ps[i].1@ == name
}

fn contains_player(ps: &Vec<(Option<String>, String)>, name: &str) -> (r: bool)
    ensures
        r == has_player(ps@, name@),
{
    let mut i: usize = 0;
    while i < ps.len()
        invariant
            i <= ps@.len(),
            forall|k: int| 0 <= k < i ==> ps@[k].1@ != name@,
        decreases ps@.len() - i,
    {
        if str_eq(ps[i].1.as_str(), name) {
            assert(ps@[i as int].1@ == name@);
            return true;
        }
        i = i + 1;
    }
    false
}

/// The session tally: walking most-recent-first, a record is accepted
/// while its time is within the gap of the previously accepted time
/// (`last`, which starts at `now`); the first break ends the walk. An
/// accepted record counts one win if `name` is among its winners, else
/// one loss if among its losers, else nothing.
pub open spec fn tally(name: Seq<char>, records: Seq<MatchData>, last: int) -> (int, int)
    decreases records.len(),
{
    if records.len() == 0 {
        (0, 0)
    } else {
        let r = records.first();
        if last - SESSION_GAP_SECONDS <= r.time {
            let rest = tally(name, records.drop_first(), r.time as int);
            if has_player(r.winners@, name) {
                (rest.0 + 1, rest.1)
            } else if has_player(r.losers@, name) {
                (rest.0, rest.1 + 1)
            } else {
                rest
            }
        } else {
            (0, 0)
        }
    }
}

proof fn lemma_tally_bounds(name: Seq<char>, records: Seq<MatchData>, last: int)
    ensures
        0 <= tally(name, records, last).0,
        0 <= tally(name, records, last).1,
        tally(name, records, last).0 + tally(name, records, last).1 <= records.len(),
    decreases records.len(),
{
    if records.len() > 0 {
        lemma_tally_bounds(name, records.drop_first(), records.first().time as int);
    }
}

/// Counts `name`'s wins and losses over the current session of `records`
/// (ordered most recent first), starting the gap check from `now`.
pub fn parse_score(name: &str, records: &Vec<MatchData>, now: i64) -> (r: (u32, u32))
    requires
        records@.len() <= u32::MAX,
    ensures
        (r.0 as int, r.1 as int) == tally(name@, records@, now as int),
{
    let mut wins: u32 = 0;
    let mut losses: u32 = 0;
    let mut last: i64 = now;
    let mut i: usize = 0;
    proof {
        assert(records@.skip(0) =~= records@);
    }
    while i < records.len()
        invariant
            records@.len() <= u32::MAX,
            i <= records@.len(),
            wins + losses <= i,
            tally(name@, records@, now as int) == (
                wins + tally(name@, records@.skip(i as int), last as int).0,
                losses + tally(name@, records@.skip(i as int), last as int).1,
            ),
        decreases records@.len() - i,
    {
        proof {
            let cur = records@.skip(i as int);
            assert(cur.first() == records@[i as int]);
            assert(cur.drop_first() =~= records@.skip(i + 1));
            lemma_tally_bounds(name@, cur.drop_first(), cur.first().time as int);
        }
        let within = match last.checked_sub(SESSION_GAP_SECONDS) {
            Option::Some(bound) => bound <= records[i].time,
            Option::None => true,
        };
        if !within {
            return (wins, losses);
        }
        if contains_player(&records[i].winners, name) {
            wins = wins + 1;
        } else if contains_player(&records[i].losers, name) {
            losses = losses + 1;
        }
        last = records[i].time;
        i = i + 1;
    }
    proof {
        assert(records@.skip(i as int) =~= Seq::<MatchData>::empty());
    }
    (wins, losses)
}

/// Builds a record from one row's time, winners, and losers cells. A row
/// whose time text is unrecognized yields nothing.
pub fn parse_match_data(time_str: &str, winners_str: &str, losers_str: &str, now: i64) -> (r:
    Option<MatchData>)
    requires
        0 <= now <= MAX_NOW,
    ensures
        match r {
            Option::Some(m) => {
                &&& rel_time(time_str@, now as int) == Some(m.time as int)
                &&& m.winners.deep_view() == participants_of(winners_str@)
                &&& m.losers.deep_view() == participants_of(losers_str@)
            },
            Option::None => rel_time(time_str@, now as int) is None,
        },
{
    let time = parse_time(time_str, now);
    let winners = extract_names(winners_str);
    let losers = extract_names(losers_str);
    match time {
        Option::Some(t) => Some(MatchData { time: t, winners, losers }),
        Option::None => None,
    }
}

/// What the rows of the match table yield: the first row is presentation
/// and is skipped; a row needs at least five cells, of which the third is
/// the time text and the fourth and fifth the winners and losers markup;
/// a row whose time does not parse is dropped.
pub open spec fn row_records(rows: Seq<Seq<Seq<char>>>, i: int, now: int) -> Seq<
    (int, Seq<(Option<Seq<char>>, Seq<char>)>, Seq<(Option<Seq<char>>, Seq<char>)>),
>
    decreases rows.len() - i,
{
    if i < 1 || i >= rows.len() {
        Seq::empty()
    } else {
        let row = rows[i];
        let rest = row_records(rows, i + 1, now);
        if row.len() >= 5 {
            match rel_time(row[2], now) {
                Option::Some(t) => seq![
                    (t, participants_of(row[3]), participants_of(row[4])),
                ] + rest,
                Option::None => rest,
            }
        } else {
            rest
        }
    }
}

/// Turns the raw match table into records, in page order.
pub fn parse_match_rows(rows: &Vec<Vec<String>>, now: i64) -> (r: Vec<MatchData>)
    requires
        0 <= now <= MAX_NOW,
    ensures
        r.deep_view() == row_records(rows.deep_view(), 1, now as int),
{
    let mut out: Vec<MatchData> = Vec::new();
    let mut i: usize = 1;
    proof {
        if rows.deep_view().len() < 1 {
            assert(out.deep_view() =~= row_records(rows.deep_view(), 1, now as int));
        }
        assert(out.deep_view() + row_records(rows.deep_view(), 1, now as int) =~= row_records(
            rows.deep_view(),
            1,
            now as int,
        ));
    }
    while i < rows.len()
        invariant
            0 <= now <= MAX_NOW,
            1 <= i,
            i <= rows@.len() || i == 1,
            row_records(rows.deep_view(), 1, now as int) == out.deep_view() + row_records(
                rows.deep_view(),
                i as int,
                now as int,
            ),
        decreases rows@.len() - i,
    {
        let row = &rows[i];
        proof {
            assert(rows.deep_view()[i as int] == row.deep_view());
        }
        if row.len() >= 5 {
            match parse_match_data(row[2].as_str(), row[3].as_str(), row[4].as_str(), now) {
                Option::Some(m) => {
                    let ghost pre = out.deep_view();
                    let ghost mv = m@;
                    out.push(m);
                    proof {
                        assert(out.deep_view() =~= pre.push(mv));
                        assert(row.deep_view()[2] == row@[2]@);
                        assert(row.deep_view()[3] == row@[3]@);
                        assert(row.deep_view()[4] == row@[4]@);
                        assert(pre + row_records(rows.deep_view(), i as int, now as int)
                            =~= out.deep_view() + row_records(
                            rows.deep_view(),
                            i + 1,
                            now as int,
                        ));
                    }
                },
                Option::None => {
                    proof {
                        assert(row.deep_view()[2] == row@[2]@);
                    }
                },
            }
        }
        i = i + 1;
    }
    proof {
        assert(row_records(rows.deep_view(), i as int, now as int) =~= Seq::<
            (int, Seq<(Option<Seq<char>>, Seq<char>)>, Seq<(Option<Seq<char>>, Seq<char>)>),
        >::empty());
        assert(out.deep_view() + Seq::<
            (int, Seq<(Option<Seq<char>>, Seq<char>)>, Seq<(Option<Seq<char>>, Seq<char>)>),
        >::empty() =~= out.deep_view());
    }
    out
}

} // verus!
