use voobly_client::clock::parse_time;
use voobly_client::csv::{pair_value, parse_response};
use voobly_client::markup::extract_names;

fn pairs_of(text: &str) -> Vec<(String, String)> {
    parse_response(text)
}

#[test]
fn csv_two_fields() {
    let pairs = pairs_of("uid,name\n42,PlayerOne\n");
    assert_eq!(
        pairs,
        vec![
            ("uid".to_string(), "42".to_string()),
            ("name".to_string(), "PlayerOne".to_string()),
        ]
    );
    assert_eq!(pair_value(&pairs, "uid"), Some("42".to_string()));
    assert_eq!(pair_value(&pairs, "name"), Some("PlayerOne".to_string()));
}

#[test]
fn csv_empty_input() {
    assert!(pairs_of("").is_empty());
}

#[test]
fn csv_missing_value_line() {
    assert!(pairs_of("uid,name\n").is_empty());
}

#[test]
fn csv_empty_value_drops_pair() {
    // Positional pairing: "uid" lines up with the empty value and is
    // dropped; "name" still lines up with "Foo" and survives.
    let pairs = pairs_of("uid,name\n,Foo\n");
    assert_eq!(pairs, vec![("name".to_string(), "Foo".to_string())]);
    assert_eq!(pair_value(&pairs, "uid"), None);
}

#[test]
fn csv_empty_key_drops_pair() {
    let pairs = pairs_of("uid,\n42,Foo\n");
    assert_eq!(pairs, vec![("uid".to_string(), "42".to_string())]);
}

#[test]
fn csv_crlf_lines() {
    let pairs = pairs_of("rating\r\n1800\r\n");
    assert_eq!(pair_value(&pairs, "rating"), Some("1800".to_string()));
}

#[test]
fn csv_without_trailing_newline() {
    let pairs = pairs_of("rating\n1650");
    assert_eq!(pair_value(&pairs, "rating"), Some("1650".to_string()));
}

#[test]
fn csv_repeated_key_keeps_last() {
    let pairs = pairs_of("a,a\n1,2\n");
    assert_eq!(pair_value(&pairs, "a"), Some("2".to_string()));
}

#[test]
fn csv_extra_lines_ignored() {
    let pairs = pairs_of("uid\n7\nmore,noise\n");
    assert_eq!(pairs, vec![("uid".to_string(), "7".to_string())]);
}

#[test]
fn participants_team_then_player() {
    let cell = "<a href=\"/team/1\">TeamX</a> <a href=\"/p/2\">Alice</a>";
    let names = extract_names(cell);
    assert_eq!(names, vec![(Some("TeamX".to_string()), "Alice".to_string())]);
}

#[test]
fn participants_single_anchor() {
    let cell = "<a href=\"/p/2\">Solo</a>";
    let names = extract_names(cell);
    assert_eq!(names, vec![(None, "Solo".to_string())]);
}

#[test]
fn participants_several_lines() {
    let cell = "<a href=\"/t\">T1</a><a href=\"/p\">Alice</a><br><a href=\"/q\">Bob</a>";
    let names = extract_names(cell);
    assert_eq!(
        names,
        vec![
            (Some("T1".to_string()), "Alice".to_string()),
            (None, "Bob".to_string()),
        ]
    );
}

#[test]
fn participants_markers_out_of_order() {
    // The closing marker comes before the opening one, so the line
    // contributes nothing.
    let cell = "</a>Broken<a href=\"x\">";
    assert!(extract_names(cell).is_empty());
}

#[test]
fn participants_plain_text_contributes_nothing() {
    assert!(extract_names("no markup here").is_empty());
}

#[test]
fn participants_second_pair_out_of_order() {
    // A second marker pair exists but its captures cross, so the line
    // contributes nothing, not even the first capture.
    assert!(extract_names("a\">T</a>b</a>c\">d").is_empty());
}

const NOW: i64 = 86400 * 20000 + 10 * 3600; // ten o'clock on some day

#[test]
fn time_today_pm() {
    // 3:15 PM is hour 15, minute 15 of now's day.
    let expected = 86400 * 20000 + 15 * 3600 + 15 * 60;
    assert_eq!(parse_time("Today, 3:15 PM", NOW), Some(expected));
}

#[test]
fn time_today_am() {
    let expected = 86400 * 20000 + 9 * 3600 + 5 * 60;
    assert_eq!(parse_time("Today, 9:05 AM", NOW), Some(expected));
}

#[test]
fn time_midnight_and_noon() {
    assert_eq!(parse_time("Today, 12:05 AM", NOW), Some(86400 * 20000 + 5 * 60));
    assert_eq!(parse_time("Today, 12:05 PM", NOW), Some(86400 * 20000 + 12 * 3600 + 5 * 60));
}

#[test]
fn time_yesterday() {
    let expected = 86400 * 19999 + 12 * 3600 + 30 * 60;
    assert_eq!(parse_time("Yesterday, 12:30 PM", NOW), Some(expected));
}

#[test]
fn time_minutes_ago() {
    assert_eq!(parse_time("5 minutes ago", NOW), Some(NOW - 300));
    assert_eq!(parse_time("59 minutes ago", NOW), Some(NOW - 59 * 60));
}

#[test]
fn time_unrecognized() {
    assert_eq!(parse_time("garbage", NOW), None);
    assert_eq!(parse_time("Today, 13:00 PM", NOW), None);
    assert_eq!(parse_time("Today, 0:30 AM", NOW), None);
    assert_eq!(parse_time("1 minute ago", NOW), None);
    assert_eq!(parse_time("120 minutes ago", NOW), None);
    assert_eq!(parse_time("", NOW), None);
}
