//! Request-side helpers: the relay's header fields, its user parameter
//! string, the mention prefix of a reply, and the name normalization used
//! for entity lookups.

use vstd::prelude::*;
use vstd::string::{StrSliceExecFns, StringExecFns};
use crate::text::{last_value, lookup_last, substr_string, trim_str, trim_ws};

verus! {

/// The header fields the chat-bot relay passes with each request.
pub struct NightbotHeaderFields {
    pub response_url: String,
    pub user: Option<String>,
    pub channel: String,
}

/// The percent-decoded name/value pairs of a form-encoded string, in
/// order, as `url::form_urlencoded` reads them.
pub uninterp spec fn form_pairs_of(s: Seq<char>) -> Seq<(Seq<char>, Seq<char>)>;

/// Parses the relay's user header parameter into its name/value pairs.
///
/// Relies on `url::form_urlencoded::parse`: the decoded pairs are a
/// function of the text alone.
#[verifier::external_body]
pub fn parse_nightbot_user_param(params: &str) -> (r: Vec<(String, String)>)
    ensures
        r.deep_view() == form_pairs_of(params@),
{
    url::form_urlencoded::parse(params.as_bytes()).map(
        |(k, v): (std::borrow::Cow<str>, std::borrow::Cow<str>)| (k.into_owned(), v.into_owned()),
    ).collect()
}

/// The display name the user parameter carries, if any; with a repeated
/// field the last occurrence wins, as a map built by insertion would have
/// it.
pub open spec fn display_name_of(user_param: Seq<char>) -> Option<Seq<char>> {
    last_value(form_pairs_of(user_param), "displayName"@)
}

/// The reply text with its mention prefix: `@name: ` when the request
/// carried a user parameter naming a display name, the bare reply
/// otherwise.
pub open spec fn response_with_mention(response: Seq<char>, user: Option<Seq<char>>) -> Seq<char> {
    match user {
        Option::Some(p) => match display_name_of(p) {
            Option::Some(n) => "@"@ + n + ": "@ + response,
            Option::None => response,
        },
        Option::None => response,
    }
}

/// Builds the reply for the relay, mentioning the requesting user when
/// the headers identify one.
pub fn create_response(response: &str, nightbot_headers: &NightbotHeaderFields) -> (r: String)
    ensures
        r@ == response_with_mention(response@, nightbot_headers.user.deep_view()),
{
    match &nightbot_headers.user {
        Option::Some(p) => {
            let pairs = parse_nightbot_user_param(p.as_str());
            match lookup_last(&pairs, "displayName") {
                Option::Some(nm) => String::from_str("@").concat(nm.as_str()).concat(
                    ": ",
                ).concat(response),
                Option::None => String::from_str(response),
            }
        },
        Option::None => String::from_str(response),
    }
}

/// `s` without spaces or dashes, kept in order.
pub open spec fn drop_space_dash(s: Seq<char>) -> Seq<char>
    decreases s.len(),
{
    if s.len() == 0 {
        Seq::empty()
    } else if s.last() == ' ' || s.last() == '-' {
        drop_space_dash(s.drop_last())
    } else {
        drop_space_dash(s.drop_last()).push(s.last())
    }
}

/// Lookup normalization: trim, remove every space and dash, and drop one
/// trailing `s`.
pub open spec fn shrink_spec(s: Seq<char>) -> Seq<char> {
    let t = drop_space_dash(trim_ws(s));
    if t.len() > 0 && t.last() == 's' {
        t.drop_last()
    } else {
        t
    }
}

/// Normalizes a name for comparison: trims it, removes spaces and
/// dashes, and drops a trailing `s`.
pub fn shrink(s: &str) -> (r: String)
    ensures
        r@ == shrink_spec(s@),
{
    let t = trim_str(s);
    let ts = t.as_str();
    let n = ts.unicode_len();
    let mut out = String::new();
    let mut i: usize = 0;
    proof {
        assert(ts@.subrange(0, 0) =~= Seq::<char>::empty());
    }
    while i < n
        invariant
            n == ts@.len(),
            i <= n,
            out@ == drop_space_dash(ts@.subrange(0, i as int)),
        decreases n - i,
    {
        proof {
            let cur = ts@.subrange(0, i + 1);
            assert(cur.drop_last() =~= ts@.subrange(0, i as int));
            assert(cur.last() == ts@[i as int]);
        }
        let c = ts.get_char(i);
        if c != ' ' && c != '-' {
            let piece = ts.substring_char(i, i + 1);
            proof {
                assert(piece@ =~= seq![ts@[i as int]]);
                assert(out@ + piece@ =~= drop_space_dash(ts@.subrange(0, i as int)).push(
                    ts@[i as int],
                ));
            }
            out.append(piece);
        }
        i = i + 1;
    }
    proof {
        assert(ts@.subrange(0, n as int) =~= ts@);
    }
    let os = out.as_str();
    let m = os.unicode_len();
    if m > 0 && os.get_char(m - 1) == 's' {
        proof {
            assert(os@.subrange(0, m - 1) =~= os@.drop_last());
        }
        substr_string(os, 0, m - 1)
    } else {
        out
    }
}

} // verus!
