//! The client facade for the remote ladder platform.
//!
//! It holds the API key, the login credentials, and three caches: player
//! identities (no expiry), ladder ratings and raw match tables (both with
//! a fixed time-to-live, checked lazily on read). The facade itself does
//! no transport: a caller first asks the cache, and on a miss fetches the
//! documented URL and hands the body back to the matching `*_fetched`
//! method, which parses it and fills the cache.

use vstd::prelude::*;
use vstd::string::StringExecFns;
use crate::cache::CacheMap;
use crate::csv::{csv_value, pair_value, parse_response};
use crate::text::str_eq;

verus! {

/// Seconds a cached rating stays fresh.
pub const RATING_TTL_SECONDS: i64 = 180;

/// Seconds a cached match table stays fresh.
pub const MATCH_TTL_SECONDS: i64 = 180;

/// What `str::to_uppercase` maps a string to; cache keys are folded
/// through it so lookups are case-insensitive.
pub uninterp spec fn upper_of(s: Seq<char>) -> Seq<char>;

/// Relies on `str::to_uppercase`: the result is a function of the
/// characters alone, so equal strings fold to the same cache key.
#[verifier::external_body]
fn to_upper(s: &str) -> (r: String)
    ensures
        r@ == upper_of(s@),
{
    s.to_uppercase()
}

/// The data rows of the first HTML table in a document, each row a list
/// of cell texts, or nothing when the document has no table.
pub uninterp spec fn first_table_rows(html: Seq<char>) -> Option<Seq<Seq<Seq<char>>>>;

/// Relies on `table_extract::Table::find_first`: the first table of the
/// markup, a function of the markup alone; its rows are handed out as
/// plain strings.
#[verifier::external_body]
fn find_first_table(html: &str) -> (r: Option<Vec<Vec<String>>>)
    ensures
        r.deep_view() == first_table_rows(html@),
{
    table_extract::Table::find_first(html).map(
        |t| t.iter().map(|row| row.iter().map(String::clone).collect()).collect(),
    )
}

/// The identity cache key for a queried name.
pub open spec fn id_key(name: Seq<char>) -> Seq<Seq<char>> {
    seq![upper_of(name)]
}

/// The rating cache key for a player id and ladder id.
pub open spec fn rating_key(id: Seq<char>, ladder: Seq<char>) -> Seq<Seq<char>> {
    seq![upper_of(id), upper_of(ladder)]
}

/// The match table cache key for a player id.
pub open spec fn match_key(id: Seq<char>) -> Seq<Seq<char>> {
    seq![upper_of(id)]
}

fn fold_key1(a: &str) -> (k: Vec<String>)
    ensures
        k.deep_view() == seq![upper_of(a@)],
{
    let mut k: Vec<String> = Vec::new();
    k.push(to_upper(a));
    proof {
        assert(k.deep_view() =~= seq![upper_of(a@)]);
    }
    k
}

fn fold_key2(a: &str, b: &str) -> (k: Vec<String>)
    ensures
        k.deep_view() == seq![upper_of(a@), upper_of(b@)],
{
    let mut k: Vec<String> = Vec::new();
    k.push(to_upper(a));
    k.push(to_upper(b));
    proof {
        assert(k.deep_view() =~= seq![upper_of(a@), upper_of(b@)]);
    }
    k
}

fn clone_row(row: &Vec<String>) -> (r: Vec<String>)
    ensures
        r.deep_view() == row.deep_view(),
{
    let mut out: Vec<String> = Vec::new();
    let mut i: usize = 0;
    while i < row.len()
        invariant
            i <= row@.len(),
            out.deep_view() == row.deep_view().subrange(0, i as int),
        decreases row@.len() - i,
    {
        let ghost pre = out.deep_view();
        out.push(row[i].clone());
        proof {
            assert(out.deep_view() =~= pre.push(row.deep_view()[i as int]));
            assert(out.deep_view() =~= row.deep_view().subrange(0, i + 1));
        }
        i = i + 1;
    }
    proof {
        assert(row.deep_view().subrange(0, i as int) =~= row.deep_view());
    }
    out
}

fn clone_rows(rows: &Vec<Vec<String>>) -> (r: Vec<Vec<String>>)
    ensures
        r.deep_view() == rows.deep_view(),
{
    let mut out: Vec<Vec<String>> = Vec::new();
    let mut i: usize = 0;
    while i < rows.len()
        invariant
            i <= rows@.len(),
            out.deep_view() == rows.deep_view().subrange(0, i as int),
        decreases rows@.len() - i,
    {
        let ghost pre = out.deep_view();
        let row = clone_row(&rows[i]);
        out.push(row);
        proof {
            assert(out.deep_view() =~= pre.push(rows.deep_view()[i as int]));
            assert(out.deep_view() =~= rows.deep_view().subrange(0, i + 1));
        }
        i = i + 1;
    }
    proof {
        assert(rows.deep_view().subrange(0, i as int) =~= rows.deep_view());
    }
    out
}

/// The client facade. See the module documentation for the protocol.
pub struct VooblyApi {
    key: String,
    username: String,
    password: String,
    id_cache: CacheMap<(String, String)>,
    elo_cache: CacheMap<(String, i64)>,
    match_cache: CacheMap<(Vec<Vec<String>>, i64)>,
}

impl VooblyApi {
    pub const RM_1_V_1: &'static str = "131";

    pub const RM_TG: &'static str = "132";

    pub const DM_1_V_1: &'static str = "163";

    pub const DM_TG: &'static str = "162";

    /// Query name (folded) to (external id, canonical name).
    pub closed spec fn id_map(&self) -> Map<Seq<Seq<char>>, (Seq<char>, Seq<char>)> {
        self.id_cache@
    }

    /// (id, ladder) (folded) to (rating text, fetch time).
    pub closed spec fn rating_map(&self) -> Map<Seq<Seq<char>>, (Seq<char>, i64)> {
        self.elo_cache@
    }

    /// Player id (folded) to (table rows, fetch time).
    pub closed spec fn match_map(&self) -> Map<Seq<Seq<char>>, (Seq<Seq<Seq<char>>>, i64)> {
        self.match_cache@
    }

    pub closed spec fn key_view(&self) -> Seq<char> {
        self.key@
    }

    pub closed spec fn username_view(&self) -> Seq<char> {
        self.username@
    }

    pub closed spec fn password_view(&self) -> Seq<char> {
        self.password@
    }

    pub closed spec fn wf(&self) -> bool {
        self.id_cache.wf() && self.elo_cache.wf() && self.match_cache.wf()
    }

    /// The stored credentials, unchanged by a call.
    pub open spec fn same_credentials(&self, other: &Self) -> bool {
        self.key_view() == other.key_view() && self.username_view() == other.username_view()
            && self.password_view() == other.password_view()
    }

    pub fn new(key: String, username: String, password: String) -> (r: Self)
        ensures
            r.wf(),
            r.key_view() == key@,
            r.username_view() == username@,
            r.password_view() == password@,
            r.id_map() == Map::<Seq<Seq<char>>, (Seq<char>, Seq<char>)>::empty(),
            r.rating_map() == Map::<Seq<Seq<char>>, (Seq<char>, i64)>::empty(),
            r.match_map() == Map::<Seq<Seq<char>>, (Seq<Seq<Seq<char>>>, i64)>::empty(),
    {
        VooblyApi {
            key,
            username,
            password,
            id_cache: CacheMap::new(),
            elo_cache: CacheMap::new(),
            match_cache: CacheMap::new(),
        }
    }

    pub fn api_key(&self) -> (r: &String)
        ensures
            r@ == self.key_view(),
    {
        &self.key
    }

    pub fn login_username(&self) -> (r: &String)
        ensures
            r@ == self.username_view(),
    {
        &self.username
    }

    pub fn login_password(&self) -> (r: &String)
        ensures
            r@ == self.password_view(),
    {
        &self.password
    }

    /// The cached identity for a queried name, if any. Identities do not
    /// expire; a hit returns (external id, canonical name).
    pub fn user_info_cached(&self, name: &str) -> (r: Option<(String, String)>)
        requires
            self.wf(),
        ensures
            match r {
                Option::Some(p) => self.id_map().contains_key(id_key(name@)) && p.0@
                    == self.id_map()[id_key(name@)].0 && p.1@ == self.id_map()[id_key(name@)].1,
                Option::None => !self.id_map().contains_key(id_key(name@)),
            },
    {
        let k = fold_key1(name);
        match self.id_cache.get(&k) {
            Option::Some(v) => Some((v.0.clone(), v.1.clone())),
            Option::None => None,
        }
    }

    /// Digests a fresh identity reply (`response` is the body the caller
    /// fetched, or nothing on transport failure). A reply carrying `uid`
    /// and `name` fields yields both values; when both are non-empty the
    /// identity is cached, and when either is empty any cached identity
    /// for the name is dropped, since the name no longer resolves.
    pub fn user_info_fetched(&mut self, name: &str, response: Option<&str>) -> (r: Option<
        (String, String),
    >)
        requires
            old(self).wf(),
        ensures
            final(self).wf(),
            final(self).same_credentials(old(self)),
            final(self).rating_map() == old(self).rating_map(),
            final(self).match_map() == old(self).match_map(),
            match response {
                Option::None => r is None && final(self).id_map() == old(self).id_map(),
                Option::Some(text) => {
                    let uid = csv_value(text@, "uid"@);
                    let nm = csv_value(text@, "name"@);
                    if uid is None || nm is None {
                        r is None && final(self).id_map() == old(self).id_map()
                    } else {
                        &&& r is Some
                        &&& (r->0).0@ == uid->0
                        &&& (r->0).1@ == nm->0
                        &&& if uid->0.len() > 0 && nm->0.len() > 0 {
                            final(self).id_map() == old(self).id_map().insert(
                                id_key(name@),
                                (uid->0, nm->0),
                            )
                        } else {
                            final(self).id_map() == old(self).id_map().remove(id_key(name@))
                        }
                    }
                },
            },
    {
        match response {
            Option::None => None,
            Option::Some(text) => {
                let pairs = parse_response(text);
                let uid = pair_value(&pairs, "uid");
                let nm = pair_value(&pairs, "name");
                match (uid, nm) {
                    (Option::Some(u), Option::Some(cn)) => {
                        let k = fold_key1(name);
                        if !u.as_str().is_empty() && !cn.as_str().is_empty() {
                            self.id_cache.put(k, (u.clone(), cn.clone()));
                        } else {
                            self.id_cache.take_out(&k);
                        }
                        Some((u, cn))
                    },
                    _ => None,
                }
            },
        }
    }

    /// The cached rating for (id, ladder), when it is still fresh at
    /// `now`. A stale entry is evicted and reported as absent; the caller
    /// then fetches anew.
    pub fn elo_cached(&mut self, id: &str, ladder: &str, now: i64) -> (r: Option<String>)
        requires
            old(self).wf(),
        ensures
            final(self).wf(),
            final(self).same_credentials(old(self)),
            final(self).id_map() == old(self).id_map(),
            final(self).match_map() == old(self).match_map(),
            ({
                let k = rating_key(id@, ladder@);
                if old(self).rating_map().contains_key(k) && now - old(self).rating_map()[k].1
                    < RATING_TTL_SECONDS {
                    &&& r is Some
                    &&& (r->0)@ == old(self).rating_map()[k].0
                    &&& final(self).rating_map() == old(self).rating_map()
                } else if old(self).rating_map().contains_key(k) {
                    r is None && final(self).rating_map() == old(self).rating_map().remove(k)
                } else {
                    r is None && final(self).rating_map() == old(self).rating_map()
                }
            }),
    {
        let k = fold_key2(id, ladder);
        let hit = match self.elo_cache.get(&k) {
            Option::Some(v) => {
                let ts = v.1;
                let fresh = if now >= ts {
                    match now.checked_sub(ts) {
                        Option::Some(d) => d < RATING_TTL_SECONDS,
                        Option::None => false,
                    }
                } else {
                    true
                };
                if fresh {
                    Some(Some(v.0.clone()))
                } else {
                    None
                }
            },
            Option::None => Some(None),
        };
        match hit {
            Option::Some(r) => r,
            Option::None => {
                self.elo_cache.take_out(&k);
                None
            },
        }
    }

    /// Digests a fresh rating reply. A reply carrying a `rating` field
    /// yields its value and caches it with fetch time `now`; anything
    /// else yields nothing and leaves the cache alone.
    pub fn elo_fetched(&mut self, id: &str, ladder: &str, response: Option<&str>, now: i64) -> (r:
        Option<String>)
        requires
            old(self).wf(),
        ensures
            final(self).wf(),
            final(self).same_credentials(old(self)),
            final(self).id_map() == old(self).id_map(),
            final(self).match_map() == old(self).match_map(),
            match response {
                Option::None => r is None && final(self).rating_map() == old(self).rating_map(),
                Option::Some(text) => match csv_value(text@, "rating"@) {
                    Option::None => r is None && final(self).rating_map() == old(
                        self,
                    ).rating_map(),
                    Option::Some(v) => {
                        &&& r is Some
                        &&& (r->0)@ == v
                        &&& final(self).rating_map() == old(self).rating_map().insert(
                            rating_key(id@, ladder@),
                            (v, now),
                        )
                    },
                },
            },
    {
        match response {
            Option::None => None,
            Option::Some(text) => {
                let pairs = parse_response(text);
                match pair_value(&pairs, "rating") {
                    Option::Some(v) => {
                        let k = fold_key2(id, ladder);
                        self.elo_cache.put(k, (v.clone(), now));
                        Some(v)
                    },
                    Option::None => None,
                }
            },
        }
    }

    /// The cached match table for a player id, when it is still fresh at
    /// `now`. A stale entry is evicted and reported as absent.
    pub fn matches_cached(&mut self, id: &str, now: i64) -> (r: Option<Vec<Vec<String>>>)
        requires
            old(self).wf(),
        ensures
            final(self).wf(),
            final(self).same_credentials(old(self)),
            final(self).id_map() == old(self).id_map(),
            final(self).rating_map() == old(self).rating_map(),
            ({
                let k = match_key(id@);
                if old(self).match_map().contains_key(k) && now - old(self).match_map()[k].1
                    < MATCH_TTL_SECONDS {
                    &&& r is Some
                    &&& (r->0).deep_view() == old(self).match_map()[k].0
                    &&& final(self).match_map() == old(self).match_map()
                } else if old(self).match_map().contains_key(k) {
                    r is None && final(self).match_map() == old(self).match_map().remove(k)
                } else {
                    r is None && final(self).match_map() == old(self).match_map()
                }
            }),
    {
        let k = fold_key1(id);
        let hit = match self.match_cache.get(&k) {
            Option::Some(v) => {
                let ts = v.1;
                let fresh = if now >= ts {
                    match now.checked_sub(ts) {
                        Option::Some(d) => d < MATCH_TTL_SECONDS,
                        Option::None => false,
                    }
                } else {
                    true
                };
                if fresh {
                    Some(Some(clone_rows(&v.0)))
                } else {
                    None
                }
            },
            Option::None => Some(None),
        };
        match hit {
            Option::Some(r) => r,
            Option::None => {
                self.match_cache.take_out(&k);
                None
            },
        }
    }

    /// Digests a freshly scraped match page. When the body holds a table
    /// its rows are cached with fetch time `now` and returned; a body
    /// without a table, or no body at all, yields nothing and leaves the
    /// cache alone.
    pub fn matches_fetched(&mut self, id: &str, html: Option<&str>, now: i64) -> (r: Option<
        Vec<Vec<String>>,
    >)
        requires
            old(self).wf(),
        ensures
            final(self).wf(),
            final(self).same_credentials(old(self)),
            final(self).id_map() == old(self).id_map(),
            final(self).rating_map() == old(self).rating_map(),
            match html {
                Option::None => r is None && final(self).match_map() == old(self).match_map(),
                Option::Some(body) => match first_table_rows(body@) {
                    Option::None => r is None && final(self).match_map() == old(
                        self,
                    ).match_map(),
                    Option::Some(rows) => {
                        &&& r is Some
                        &&& (r->0).deep_view() == rows
                        &&& final(self).match_map() == old(self).match_map().insert(
                            match_key(id@),
                            (rows, now),
                        )
                    },
                },
            },
    {
        match html {
            Option::None => None,
            Option::Some(body) => {
                match find_first_table(body) {
                    Option::Some(rows) => {
                        let k = fold_key1(id);
                        let copy = clone_rows(&rows);
                        self.match_cache.put(k, (copy, now));
                        Some(rows)
                    },
                    Option::None => None,
                }
            },
        }
    }
}

/// The ladder query parameters a rating request may carry.
pub struct VooblyLadderInfo {
    pub ladder: Option<String>,
}

/// Which ladder a query names: its platform id and its display name.
/// Unknown or missing choices fall back to random-map one against one.
pub open spec fn ladder_choice(l: Option<Seq<char>>) -> (Seq<char>, Seq<char>) {
    if l is Some && l->0 == "rmtg"@ {
        ("132"@, "RM TG"@)
    } else if l is Some && l->0 == "dm1v1"@ {
        ("163"@, "DM 1v1"@)
    } else if l is Some && l->0 == "dmtg"@ {
        ("162"@, "DM TG"@)
    } else {
        ("131"@, "RM 1v1"@)
    }
}

/// Resolves the requested ladder to (ladder id, canonical display name).
pub fn parse_ladder(info: &VooblyLadderInfo) -> (r: (String, String))
    ensures
        (r.0@, r.1@) == ladder_choice(info.ladder.deep_view()),
{
    match &info.ladder {
        Option::Some(s) => {
            if str_eq(s.as_str(), "rmtg") {
                (String::from_str(VooblyApi::RM_TG), String::from_str("RM TG"))
            } else if str_eq(s.as_str(), "dm1v1") {
                (String::from_str(VooblyApi::DM_1_V_1), String::from_str("DM 1v1"))
            } else if str_eq(s.as_str(), "dmtg") {
                (String::from_str(VooblyApi::DM_TG), String::from_str("DM TG"))
            } else {
                (String::from_str(VooblyApi::RM_1_V_1), String::from_str("RM 1v1"))
            }
        },
        Option::None => (String::from_str(VooblyApi::RM_1_V_1), String::from_str("RM 1v1")),
    }
}

} // verus!
