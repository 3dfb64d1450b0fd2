use voobly_client::voobly::{parse_ladder, VooblyApi, VooblyLadderInfo};

fn api() -> VooblyApi {
    VooblyApi::new("key".to_string(), "user".to_string(), "pass".to_string())
}

const T: i64 = 1_500_000_000;

#[test]
fn identity_cache_is_case_insensitive() {
    let mut api = api();
    assert_eq!(api.user_info_cached("bob"), None);
    let fetched = api.user_info_fetched("bob", Some("uid,name\n7,Bob\n"));
    assert_eq!(fetched, Some(("7".to_string(), "Bob".to_string())));
    // A differently-cased query hits the cache; no fresh fetch is needed.
    assert_eq!(
        api.user_info_cached("BOB"),
        Some(("7".to_string(), "Bob".to_string()))
    );
    assert_eq!(
        api.user_info_cached("bOb"),
        Some(("7".to_string(), "Bob".to_string()))
    );
}

#[test]
fn identity_corrected_spelling_surfaces_both() {
    // The remote reports the name under a different canonical spelling;
    // the caller sees the corrected name and the id, not an error.
    let mut api = api();
    let fetched = api.user_info_fetched("teh_bob", Some("uid,name\n9,TehBob\n"));
    assert_eq!(fetched, Some(("9".to_string(), "TehBob".to_string())));
    assert_eq!(
        api.user_info_cached("TEH_BOB"),
        Some(("9".to_string(), "TehBob".to_string()))
    );
}

#[test]
fn identity_transport_failure_changes_nothing() {
    let mut api = api();
    api.user_info_fetched("bob", Some("uid,name\n7,Bob\n"));
    assert_eq!(api.user_info_fetched("bob", None), None);
    assert_eq!(
        api.user_info_cached("bob"),
        Some(("7".to_string(), "Bob".to_string()))
    );
}

#[test]
fn identity_reply_without_fields_is_absent() {
    let mut api = api();
    assert_eq!(api.user_info_fetched("bob", Some("status\nerror\n")), None);
    assert_eq!(api.user_info_fetched("bob", Some("")), None);
    assert_eq!(api.user_info_cached("bob"), None);
}

#[test]
fn rating_cache_respects_ttl() {
    let mut api = api();
    assert_eq!(api.elo_cached("7", "131", T), None);
    let fetched = api.elo_fetched("7", "131", Some("rating\n1800\n"), T);
    assert_eq!(fetched, Some("1800".to_string()));
    // Reads before T + TTL return the entry unchanged.
    assert_eq!(api.elo_cached("7", "131", T + 1), Some("1800".to_string()));
    assert_eq!(api.elo_cached("7", "131", T + 179), Some("1800".to_string()));
    // A read at T + TTL treats the entry as absent, so the caller makes
    // exactly one fresh remote call and stores its result.
    assert_eq!(api.elo_cached("7", "131", T + 180), None);
    let refreshed = api.elo_fetched("7", "131", Some("rating\n1810\n"), T + 180);
    assert_eq!(refreshed, Some("1810".to_string()));
    assert_eq!(api.elo_cached("7", "131", T + 181), Some("1810".to_string()));
}

#[test]
fn rating_key_folds_case() {
    let mut api = api();
    api.elo_fetched("7abc", "x131", Some("rating\n1700\n"), T);
    assert_eq!(api.elo_cached("7ABC", "X131", T + 1), Some("1700".to_string()));
}

#[test]
fn rating_reply_without_field_changes_nothing() {
    let mut api = api();
    api.elo_fetched("7", "131", Some("rating\n1800\n"), T);
    assert_eq!(api.elo_fetched("7", "131", Some("nope\nvalue\n"), T + 1), None);
    assert_eq!(api.elo_cached("7", "131", T + 2), Some("1800".to_string()));
    assert_eq!(api.elo_fetched("7", "131", None, T + 3), None);
}

const PAGE: &str = "<html><body><table>\
    <tr><td>h1</td><td>h2</td><td>Date</td><td>W</td><td>L</td></tr>\
    <tr><td>x</td><td>y</td><td>5 minutes ago</td>\
    <td><a href=\"/t\">T1</a><a href=\"/p\">Alice</a></td>\
    <td><a href=\"/q\">Bob</a></td></tr>\
    </table></body></html>";

#[test]
fn match_page_rows_are_extracted() {
    let mut api = api();
    let rows = api.matches_fetched("7", Some(PAGE), T).expect("table");
    assert_eq!(rows.len(), 2);
    assert_eq!(rows[1][2], "5 minutes ago");
    assert!(rows[1][3].contains("Alice"));
}

#[test]
fn match_page_without_table_is_absent() {
    let mut api = api();
    assert_eq!(api.matches_fetched("7", Some("<html><p>empty</p></html>"), T), None);
    assert_eq!(api.matches_fetched("7", None, T), None);
    assert_eq!(api.matches_cached("7", T), None);
}

#[test]
fn match_cache_respects_ttl() {
    let mut api = api();
    let rows = api.matches_fetched("7", Some(PAGE), T).expect("table");
    assert_eq!(api.matches_cached("7", T + 179), Some(rows.clone()));
    assert_eq!(api.matches_cached("7", T + 180), None);
    // After expiry the entry is gone until a fresh scrape fills it again.
    assert_eq!(api.matches_cached("7", T + 1), None);
    let again = api.matches_fetched("7", Some(PAGE), T + 200).expect("table");
    assert_eq!(again, rows);
}

#[test]
fn credentials_are_kept() {
    let api = api();
    assert_eq!(api.api_key(), "key");
    assert_eq!(api.login_username(), "user");
    assert_eq!(api.login_password(), "pass");
}

#[test]
fn ladder_parsing() {
    let choice = |l: Option<&str>| {
        parse_ladder(&VooblyLadderInfo { ladder: l.map(|s| s.to_string()) })
    };
    assert_eq!(choice(Some("rmtg")), ("132".to_string(), "RM TG".to_string()));
    assert_eq!(choice(Some("dm1v1")), ("163".to_string(), "DM 1v1".to_string()));
    assert_eq!(choice(Some("dmtg")), ("162".to_string(), "DM TG".to_string()));
    assert_eq!(choice(Some("rm1v1")), ("131".to_string(), "RM 1v1".to_string()));
    assert_eq!(choice(Some("unknown")), ("131".to_string(), "RM 1v1".to_string()));
    assert_eq!(choice(None), ("131".to_string(), "RM 1v1".to_string()));
    assert_eq!(VooblyApi::RM_1_V_1, "131");
    assert_eq!(VooblyApi::DM_TG, "162");
}
