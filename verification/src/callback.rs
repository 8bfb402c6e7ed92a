//! Extraction of the OAuth outcome from a callback URL.
//!
//! Both delivery paths — the loopback redirect and the OS deep link — carry
//! the same query parameters. The URL is split into decoded key/value pairs
//! by the `url` crate behind a trusted wrapper; the policy over those pairs is
//! verified: a `code` parameter wins over any `error` parameter, an `error`
//! parameter alone is a provider error, and a callback with neither — or no
//! parseable URL at all — is the generic invalid-callback error.

use vstd::prelude::*;

verus! {

/// The success payload delivered to the rest of the application: the
/// authorization code and the optional opaque state echoed by the provider.
#[derive(Debug)]
pub struct OAuthCallbackPayload {
    pub code: String,
    pub state: Option<String>,
}

impl PartialEq for OAuthCallbackPayload {
    fn eq(&self, other: &OAuthCallbackPayload) -> (r: bool) {
        let state_eq: bool = match &self.state {
            Option::Some(a) => match &other.state {
                Option::Some(b) => *a == *b,
                Option::None => false,
            },
            Option::None => match &other.state {
                Option::Some(_) => false,
                Option::None => true,
            },
        };
        state_eq && self.code == other.code
    }
}

impl vstd::std_specs::cmp::PartialEqSpecImpl for OAuthCallbackPayload {
    open spec fn obeys_eq_spec() -> bool {
        true
    }

    open spec fn eq_spec(&self, other: &OAuthCallbackPayload) -> bool {
        self.code@ == other.code@ && match self.state {
            Option::Some(a) => match other.state {
                Option::Some(b) => a@ == b@,
                Option::None => false,
            },
            Option::None => other.state is None,
        }
    }
}

/// What the notification channel carries: either a captured code or an
/// error text.
#[derive(Debug)]
pub enum CallbackEvent {
    CodeReceived(OAuthCallbackPayload),
    Error(String),
}

/// What one callback URL was found to hold.
#[derive(Debug)]
pub enum CallbackParse {
    /// A `code` parameter was present; any `error` parameter is ignored.
    CodeFound(OAuthCallbackPayload),
    /// No `code`, but an `error` parameter with this text.
    ErrorFound(String),
    /// Neither parameter, or no parseable URL at all.
    Neither,
}

/// The decoded query pairs of a URL text, in order. The decomposition is a
/// function of the text alone; it yields nothing when the text is not an
/// absolute URL.
pub uninterp spec fn url_query_pairs_of(s: Seq<char>) -> Option<Seq<(Seq<char>, Seq<char>)>>;

/// The views of a vector of decoded pairs.
pub open spec fn pairs_view(v: Seq<(String, String)>) -> Seq<(Seq<char>, Seq<char>)> {
    v.map_values(|p: (String, String)| (p.0@, p.1@))
}

/// Relies on `url::Url::parse` and `url::Url::query_pairs`: an absolute URL
/// text determines its decoded query pairs, and a text that is no absolute
/// URL is rejected; both depend on the text alone.
#[verifier::external_body]
fn url_query_pairs(u: &str) -> (r: Option<Vec<(String, String)>>)
    ensures
        r is Some <==> url_query_pairs_of(u@) is Some,
        r matches Some(v) ==> url_query_pairs_of(u@) == Option::Some(pairs_view(v@)),
{
    match url::Url::parse(u) {
        Ok(parsed) => Some(
            parsed.query_pairs().map(|(k, v)| (k.into_owned(), v.into_owned())).collect(),
        ),
        Err(_) => None,
    }
}

/// The value of the first pair with the given key, if any.
pub open spec fn first_pair_value(ps: Seq<(Seq<char>, Seq<char>)>, key: Seq<char>) -> Option<
    Seq<char>,
>
    decreases ps.len(),
{
    if ps.len() == 0 {
        Option::None
    } else if ps[0].0 == key {
        Option::Some(ps[0].1)
    } else {
        first_pair_value(ps.drop_first(), key)
    }
}

/// Whether an optional state string carries exactly the given optional text.
pub open spec fn state_matches(st: Option<String>, v: Option<Seq<char>>) -> bool {
    match (st, v) {
        (Option::Some(s), Option::Some(x)) => s@ == x,
        (Option::None, Option::None) => true,
        _ => false,
    }
}

/// The policy over a URL's query pairs: the first `code` value wins, with the
/// first `state` value beside it; otherwise the first `error` value; otherwise
/// nothing.
pub open spec fn classify_rel(ps: Seq<(Seq<char>, Seq<char>)>, r: CallbackParse) -> bool {
    match first_pair_value(ps, "code"@) {
        Option::Some(c) => (r matches CallbackParse::CodeFound(p) && p.code@ == c
            && state_matches(p.state, first_pair_value(ps, "state"@))),
        Option::None => match first_pair_value(ps, "error"@) {
            Option::Some(e) => (r matches CallbackParse::ErrorFound(m) && m@ == e),
            Option::None => r is Neither,
        },
    }
}

/// What parsing a whole URL text yields under the same policy.
pub open spec fn callback_parse_rel(u: Seq<char>, r: CallbackParse) -> bool {
    match url_query_pairs_of(u) {
        Option::None => r is Neither,
        Option::Some(ps) => classify_rel(ps, r),
    }
}

proof fn lemma_first_pair_value_skip(ps: Seq<(Seq<char>, Seq<char>)>, key: Seq<char>, i: int)
    requires
        0 <= i <= ps.len(),
        forall|j: int| 0 <= j < i ==> (#[trigger] ps[j]).0 != key,
    ensures
        first_pair_value(ps, key) == first_pair_value(ps.skip(i), key),
    decreases i,
{
    if i > 0 {
        assert(ps[0].0 != key);
        assert forall|j: int| 0 <= j < i - 1 implies (#[trigger] ps.drop_first()[j]).0
            != key by {
            assert(ps.drop_first()[j] == ps[j + 1]);
        }
        assert(ps.drop_first().skip(i - 1) =~= ps.skip(i));
        lemma_first_pair_value_skip(ps.drop_first(), key, i - 1);
    } else {
        assert(ps.skip(0) =~= ps);
    }
}

fn find_first_value(pairs: &Vec<(String, String)>, key: &String) -> (r: Option<String>)
    ensures
        match first_pair_value(pairs_view(pairs@), key@) {
            Option::Some(x) => (r matches Some(s) && s@ == x),
            Option::None => r is None,
        },
{
    let ghost ps = pairs_view(pairs@);
    let n = pairs.len();
    let mut i: usize = 0;
    while i < n
        invariant
            i <= n,
            n == pairs.len(),
            ps == pairs_view(pairs@),
            forall|j: int| 0 <= j < i ==> (#[trigger] ps[j]).0 != key@,
        decreases n - i,
    {
        let p = &pairs[i];
        proof {
            assert(ps[i as int] == (pairs@[i as int].0@, pairs@[i as int].1@));
        }
        if p.0 == *key {
            proof {
                lemma_first_pair_value_skip(ps, key@, i as int);
                assert(ps.skip(i as int)[0] == ps[i as int]);
            }
            return Option::Some(p.1.clone());
        }
        i = i + 1;
    }
    proof {
        lemma_first_pair_value_skip(ps, key@, n as int);
        assert(ps.skip(n as int).len() == 0);
    }
    Option::None
}

/// Applies the precedence policy to a URL's decoded query pairs.
pub fn classify_query(pairs: &Vec<(String, String)>) -> (r: CallbackParse)
    ensures
        classify_rel(pairs_view(pairs@), r),
{
    let code = find_first_value(pairs, &String::from_str("code"));
    match code {
        Option::Some(c) => {
            let st = find_first_value(pairs, &String::from_str("state"));
            CallbackParse::CodeFound(OAuthCallbackPayload { code: c, state: st })
        },
        Option::None => {
            match find_first_value(pairs, &String::from_str("error")) {
                Option::Some(e) => CallbackParse::ErrorFound(e),
                Option::None => CallbackParse::Neither,
            }
        },
    }
}

/// Parses a callback URL and applies the precedence policy.
pub fn parse_callback_url(u: &str) -> (r: CallbackParse)
    ensures
        callback_parse_rel(u@, r),
{
    match url_query_pairs(u) {
        Option::Some(pairs) => classify_query(&pairs),
        Option::None => CallbackParse::Neither,
    }
}

/// The generic error reported for a protocol failure: a callback that
/// cannot be parsed, or one that carries neither a code nor an error.
pub open spec fn is_invalid_event(r: CallbackEvent) -> bool {
    r matches CallbackEvent::Error(m) && m@ == "Invalid OAuth callback"@
}

/// The event a callback's query pairs give rise to: the first `code` value
/// (with the first `state` beside it) wins over any `error` value, an
/// `error` value alone is a provider error, and neither is the generic
/// invalid-callback error.
pub open spec fn event_rel(ps: Seq<(Seq<char>, Seq<char>)>, r: CallbackEvent) -> bool {
    match first_pair_value(ps, "code"@) {
        Option::Some(c) => (r matches CallbackEvent::CodeReceived(p) && p.code@ == c
            && state_matches(p.state, first_pair_value(ps, "state"@))),
        Option::None => match first_pair_value(ps, "error"@) {
            Option::Some(e) => (r matches CallbackEvent::Error(m) && m@ == e),
            Option::None => is_invalid_event(r),
        },
    }
}

/// What a whole callback URL delivers, on either delivery path: the outcome
/// of its query pairs, or the generic invalid-callback error when the URL
/// cannot be parsed.
pub open spec fn deep_link_rel(u: Seq<char>, r: CallbackEvent) -> bool {
    match url_query_pairs_of(u) {
        Option::None => is_invalid_event(r),
        Option::Some(ps) => event_rel(ps, r),
    }
}

/// Handles an OS-delivered deep link: extracts the same code/error outcome
/// as the loopback listener, under the same parsing rule, and reports the
/// generic invalid-callback error when the link cannot be parsed or carries
/// neither parameter, so that every callback ends in exactly one event on
/// the notification channel.
pub fn handle_deep_link(link: &str) -> (r: CallbackEvent)
    ensures
        deep_link_rel(link@, r),
{
    match parse_callback_url(link) {
        CallbackParse::CodeFound(p) => CallbackEvent::CodeReceived(p),
        CallbackParse::ErrorFound(m) => CallbackEvent::Error(m),
        CallbackParse::Neither => CallbackEvent::Error(
            String::from_str("Invalid OAuth callback"),
        ),
    }
}

} // verus!
