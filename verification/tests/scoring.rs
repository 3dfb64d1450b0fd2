use voobly_client::phrase::{map_age, plural_lowercase};
use voobly_client::score::{parse_match_data, parse_match_rows, parse_score, MatchData};
use voobly_client::text::ascii_eq_ignore_case;
use voobly_client::util::{create_response, shrink, NightbotHeaderFields};

const NOW: i64 = 1_600_000_000;

fn record(time: i64, winners: Vec<&str>, losers: Vec<&str>) -> MatchData {
    MatchData {
        time,
        winners: winners.into_iter().map(|n| (None, n.to_string())).collect(),
        losers: losers.into_iter().map(|n| (None, n.to_string())).collect(),
    }
}

#[test]
fn tally_counts_one_session() {
    // Three records within pairwise three-hour gaps, then one seven
    // hours back: the session ends there and the old record is ignored.
    let records = vec![
        record(NOW - 10 * 60, vec!["Target"], vec!["Other"]),
        record(NOW - 2 * 3600, vec!["Other"], vec!["Target"]),
        record(NOW - 2 * 3600 - 50 * 60, vec!["Target", "Mate"], vec!["Other"]),
        record(NOW - 7 * 3600, vec!["Target"], vec!["Other"]),
    ];
    assert_eq!(parse_score("Target", &records, NOW), (2, 1));
}

#[test]
fn tally_empty_and_stale() {
    assert_eq!(parse_score("Target", &vec![], NOW), (0, 0));
    let stale = vec![record(NOW - 4 * 3600, vec!["Target"], vec![])];
    assert_eq!(parse_score("Target", &stale, NOW), (0, 0));
}

#[test]
fn tally_name_is_case_sensitive() {
    let records = vec![record(NOW - 60, vec!["target"], vec![])];
    assert_eq!(parse_score("Target", &records, NOW), (0, 0));
}

#[test]
fn tally_ignores_uninvolved_records() {
    let records = vec![
        record(NOW - 60, vec!["A"], vec!["B"]),
        record(NOW - 120, vec!["Target"], vec!["B"]),
    ];
    assert_eq!(parse_score("Target", &records, NOW), (1, 0));
}

#[test]
fn tally_gap_measured_between_consecutive_records() {
    // Each neighbouring gap stays within three hours even though the
    // last record is far from now.
    let records = vec![
        record(NOW - 3600, vec!["Target"], vec![]),
        record(NOW - 2 * 3600 - 1800, vec![], vec!["Target"]),
        record(NOW - 5 * 3600, vec!["Target"], vec![]),
    ];
    assert_eq!(parse_score("Target", &records, NOW), (2, 1));
}

#[test]
fn match_row_parsing() {
    let m = parse_match_data(
        "5 minutes ago",
        "<a href=\"/t\">T1</a><a href=\"/p\">Alice</a>",
        "<a href=\"/q\">Bob</a>",
        NOW,
    )
    .expect("recognized time");
    assert_eq!(m.time, NOW - 300);
    assert_eq!(m.winners, vec![(Some("T1".to_string()), "Alice".to_string())]);
    assert_eq!(m.losers, vec![(None, "Bob".to_string())]);
    assert!(parse_match_data("someday", "w", "l", NOW).is_none());
}

fn row(cells: Vec<&str>) -> Vec<String> {
    cells.into_iter().map(|c| c.to_string()).collect()
}

#[test]
fn match_rows_skip_header_short_and_unparsed() {
    let rows = vec![
        row(vec!["header", "row", "is", "always", "skipped"]),
        row(vec!["x", "y", "5 minutes ago", "<a href=\"a\">W</a>", "<a href=\"b\">L</a>"]),
        row(vec!["too", "short"]),
        row(vec!["x", "y", "not a time", "<a href=\"a\">W</a>", "<a href=\"b\">L</a>"]),
        row(vec!["x", "y", "20 minutes ago", "<a href=\"a\">W2</a>", "<a href=\"b\">L2</a>"]),
    ];
    let records = parse_match_rows(&rows, NOW);
    assert_eq!(records.len(), 2);
    assert_eq!(records[0].time, NOW - 300);
    assert_eq!(records[0].winners, vec![(None, "W".to_string())]);
    assert_eq!(records[1].time, NOW - 1200);
    assert_eq!(records[1].losers, vec![(None, "L2".to_string())]);
}

fn headers(user: Option<&str>) -> NightbotHeaderFields {
    NightbotHeaderFields {
        response_url: "https://example.invalid/reply".to_string(),
        user: user.map(|u| u.to_string()),
        channel: "name=streamer".to_string(),
    }
}

#[test]
fn response_mentions_display_name() {
    let h = headers(Some("name=bob&displayName=Bob&provider=x"));
    assert_eq!(create_response("1800 in RM 1v1.", &h), "@Bob: 1800 in RM 1v1.");
}

#[test]
fn response_decodes_percent_escapes() {
    let h = headers(Some("displayName=A%20B%21"));
    assert_eq!(create_response("hi", &h), "@A B!: hi");
}

#[test]
fn response_without_user_or_name_is_bare() {
    assert_eq!(create_response("hi", &headers(None)), "hi");
    assert_eq!(create_response("hi", &headers(Some("name=bob"))), "hi");
}

#[test]
fn response_repeated_display_name_keeps_last() {
    let h = headers(Some("displayName=First&displayName=Second"));
    assert_eq!(create_response("hi", &h), "@Second: hi");
}

#[test]
fn shrink_normalizes_names() {
    assert_eq!(shrink("  Heavy-Horse Archers "), "HeavyHorseArcher");
    assert_eq!(shrink("castle"), "castle");
    assert_eq!(shrink("s"), "");
    assert_eq!(shrink(""), "");
    assert_eq!(shrink(" - s"), "");
}

#[test]
fn plural_forms() {
    assert_eq!(plural_lowercase("Archer"), "archers");
    assert_eq!(plural_lowercase("Spearman"), "spearmen");
    assert_eq!(plural_lowercase("Man-at-Arms"), "men-at-arms");
    assert_eq!(plural_lowercase("Mangonel"), "mangonels");
    assert_eq!(plural_lowercase("Mangudai"), "mengudai");
    assert_eq!(plural_lowercase("Galley"), "galleies");
    assert_eq!(plural_lowercase("Condottiero"), "condottieri");
}

#[test]
fn age_names() {
    assert_eq!(map_age("0"), "dark age");
    assert_eq!(map_age("2"), "castle age");
    assert_eq!(map_age("3"), "imperial age");
    assert_eq!(map_age("9"), "?");
}

#[test]
fn ascii_case_insensitive_comparison() {
    assert!(ascii_eq_ignore_case("Bob", "BOB"));
    assert!(ascii_eq_ignore_case("bob", "bob"));
    assert!(!ascii_eq_ignore_case("Bob", "Bo"));
    assert!(!ascii_eq_ignore_case("Bob", "Rob"));
}
