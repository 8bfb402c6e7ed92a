//! The redirect capture listener's protocol logic and its lifecycle model.
//!
//! The listener binds one ephemeral loopback port, advertises
//! `http://127.0.0.1:<port>/callback` as the redirect target, accepts exactly
//! one connection, parses the HTTP request line for the callback outcome,
//! and always answers with a fixed page that closes the browser tab. The
//! socket work itself lives outside this crate; what is verified here is the
//! request parsing, the response text, and the phase discipline that allows
//! at most one accepted connection per listener.

use vstd::prelude::*;

use crate::callback::{deep_link_rel, handle_deep_link, is_invalid_event, CallbackEvent};
use crate::text::dec_digits;
use crate::text::u64_to_dec;

verus! {

/// Token separators of the request line: the characters of Unicode's
/// White_Space set, the separators of a whitespace split.
pub open spec fn is_space(c: char) -> bool {
    let u = c as u32;
    u == 0x09 || u == 0x0a || u == 0x0b || u == 0x0c || u == 0x0d || u == 0x20 || u == 0x85
        || u == 0xa0 || u == 0x1680 || (0x2000 <= u && u <= 0x200a) || u == 0x2028 || u == 0x2029
        || u == 0x202f || u == 0x205f || u == 0x3000
}

fn is_space_char(c: char) -> (b: bool)
    ensures
        b == is_space(c),
{
    let u = c as u32;
    u == 0x09 || u == 0x0a || u == 0x0b || u == 0x0c || u == 0x0d || u == 0x20 || u == 0x85
        || u == 0xa0 || u == 0x1680 || (0x2000 <= u && u <= 0x200a) || u == 0x2028 || u == 0x2029
        || u == 0x202f || u == 0x205f || u == 0x3000
}

/// End of the request line.
pub open spec fn is_line_break(c: char) -> bool {
    c == '\r' || c == '\n'
}

/// The length of the leading run of characters before any line break.
pub open spec fn line_end(s: Seq<char>) -> int
    decreases s.len(),
{
    if s.len() == 0 || is_line_break(s[0]) {
        0
    } else {
        1 + line_end(s.drop_first())
    }
}

/// The length of the leading run of non-separator characters.
pub open spec fn token_end(s: Seq<char>) -> int
    decreases s.len(),
{
    if s.len() == 0 || is_space(s[0]) {
        0
    } else {
        1 + token_end(s.drop_first())
    }
}

/// What remains after the leading separators.
pub open spec fn skip_spaces(s: Seq<char>) -> Seq<char>
    decreases s.len(),
{
    if s.len() == 0 || !is_space(s[0]) {
        s
    } else {
        skip_spaces(s.drop_first())
    }
}

/// The second whitespace-delimited token of a line, if the line has one.
pub open spec fn second_token(s: Seq<char>) -> Option<Seq<char>> {
    let r1 = skip_spaces(s);
    let e1 = token_end(r1);
    if e1 == 0 {
        Option::None
    } else {
        let r2 = skip_spaces(r1.skip(e1));
        let e2 = token_end(r2);
        if e2 == 0 {
            Option::None
        } else {
            Option::Some(r2.take(e2))
        }
    }
}

/// The request path of an HTTP-style request: the second token of its first
/// line.
pub open spec fn request_path_of(req: Seq<char>) -> Option<Seq<char>> {
    second_token(req.take(line_end(req)))
}

proof fn lemma_line_end_index(s: Seq<char>, i: int)
    requires
        0 <= i <= s.len(),
        forall|j: int| 0 <= j < i ==> !is_line_break(#[trigger] s[j]),
        i == s.len() || is_line_break(s[i]),
    ensures
        line_end(s) == i,
    decreases i,
{
    if i > 0 {
        assert(!is_line_break(s[0]));
        assert forall|j: int| 0 <= j < i - 1 implies !is_line_break(
            #[trigger] s.drop_first()[j],
        ) by {
            assert(s.drop_first()[j] == s[j + 1]);
        }
        assert(i - 1 == s.drop_first().len() || s.drop_first()[i - 1] == s[i]);
        lemma_line_end_index(s.drop_first(), i - 1);
    }
}

proof fn lemma_token_end_index(s: Seq<char>, i: int)
    requires
        0 <= i <= s.len(),
        forall|j: int| 0 <= j < i ==> !is_space(#[trigger] s[j]),
        i == s.len() || is_space(s[i]),
    ensures
        token_end(s) == i,
    decreases i,
{
    if i > 0 {
        assert(!is_space(s[0]));
        assert forall|j: int| 0 <= j < i - 1 implies !is_space(#[trigger] s.drop_first()[j]) by {
            assert(s.drop_first()[j] == s[j + 1]);
        }
        assert(i - 1 == s.drop_first().len() || s.drop_first()[i - 1] == s[i]);
        lemma_token_end_index(s.drop_first(), i - 1);
    }
}

proof fn lemma_skip_spaces_index(s: Seq<char>, i: int)
    requires
        0 <= i <= s.len(),
        forall|j: int| 0 <= j < i ==> is_space(#[trigger] s[j]),
        i == s.len() || !is_space(s[i]),
    ensures
        skip_spaces(s) == s.skip(i),
    decreases i,
{
    if i == 0 {
        assert(s.skip(0) =~= s);
    } else {
        assert(is_space(s[0]));
        assert forall|j: int| 0 <= j < i - 1 implies is_space(#[trigger] s.drop_first()[j]) by {
            assert(s.drop_first()[j] == s[j + 1]);
        }
        assert(i - 1 == s.drop_first().len() || s.drop_first()[i - 1] == s[i]);
        lemma_skip_spaces_index(s.drop_first(), i - 1);
        assert(s.drop_first().skip(i - 1) =~= s.skip(i));
    }
}

/// First index at or past `from` (bounded by `to`) that is not a separator.
fn scan_spaces(s: &str, from: usize, to: usize) -> (r: usize)
    requires
        from <= to <= s@.len(),
    ensures
        from <= r <= to,
        forall|j: int| from <= j < r ==> is_space(#[trigger] s@[j]),
        r == to || !is_space(s@[r as int]),
{
    let n = s.unicode_len();
    let mut i: usize = from;
    while i < to
        invariant
            from <= i <= to <= n,
            n == s@.len(),
            forall|j: int| from <= j < i ==> is_space(#[trigger] s@[j]),
        decreases to - i,
    {
        let c = s.get_char(i);
        if !is_space_char(c) {
            return i;
        }
        i = i + 1;
    }
    to
}

/// First index at or past `from` (bounded by `to`) that is a separator.
fn scan_token(s: &str, from: usize, to: usize) -> (r: usize)
    requires
        from <= to <= s@.len(),
    ensures
        from <= r <= to,
        forall|j: int| from <= j < r ==> !is_space(#[trigger] s@[j]),
        r == to || is_space(s@[r as int]),
{
    let n = s.unicode_len();
    let mut i: usize = from;
    while i < to
        invariant
            from <= i <= to <= n,
            n == s@.len(),
            forall|j: int| from <= j < i ==> !is_space(#[trigger] s@[j]),
        decreases to - i,
    {
        let c = s.get_char(i);
        if is_space_char(c) {
            return i;
        }
        i = i + 1;
    }
    to
}

/// The index where the first line of the text ends.
fn find_line_end(s: &str) -> (r: usize)
    ensures
        r <= s@.len(),
        r as int == line_end(s@),
{
    let n = s.unicode_len();
    let mut i: usize = 0;
    while i < n
        invariant
            i <= n,
            n == s@.len(),
            forall|j: int| 0 <= j < i ==> !is_line_break(#[trigger] s@[j]),
        decreases n - i,
    {
        let c = s.get_char(i);
        if c == '\r' || c == '\n' {
            proof {
                lemma_line_end_index(s@, i as int);
            }
            return i;
        }
        i = i + 1;
    }
    proof {
        lemma_line_end_index(s@, n as int);
    }
    n
}

/// Extracts the request path from an HTTP-style request text.
pub fn request_path(s: &str) -> (r: Option<String>)
    ensures
        match request_path_of(s@) {
            Option::Some(p) => (r matches Some(path) && path@ == p),
            Option::None => r is None,
        },
{
    let le = find_line_end(s);
    let ghost line = s@.take(le as int);
    let a = scan_spaces(s, 0, le);
    proof {
        assert forall|j: int| 0 <= j < a implies is_space(#[trigger] line[j]) by {
            assert(line[j] == s@[j]);
        }
        if a < le {
            assert(line[a as int] == s@[a as int]);
        }
        lemma_skip_spaces_index(line, a as int);
    }
    let ghost r1 = line.skip(a as int);
    let b = scan_token(s, a, le);
    proof {
        assert forall|j: int| 0 <= j < b - a implies !is_space(#[trigger] r1[j]) by {
            assert(r1[j] == line[a + j]);
            assert(line[a + j] == s@[a + j]);
        }
        if b < le {
            assert(r1[b - a] == s@[b as int]);
        }
        lemma_token_end_index(r1, b as int - a as int);
    }
    if b == a {
        return Option::None;
    }
    let ghost r1b = r1.skip(b as int - a as int);
    proof {
        assert(r1b =~= line.skip(b as int));
    }
    let c_idx = scan_spaces(s, b, le);
    proof {
        assert forall|j: int| 0 <= j < c_idx - b implies is_space(#[trigger] r1b[j]) by {
            assert(r1b[j] == line[b + j]);
            assert(line[b + j] == s@[b + j]);
        }
        if c_idx < le {
            assert(r1b[c_idx - b] == s@[c_idx as int]);
        }
        lemma_skip_spaces_index(r1b, c_idx as int - b as int);
        assert(r1b.skip(c_idx as int - b as int) =~= line.skip(c_idx as int));
    }
    let ghost r2 = line.skip(c_idx as int);
    let d = scan_token(s, c_idx, le);
    proof {
        assert forall|j: int| 0 <= j < d - c_idx implies !is_space(#[trigger] r2[j]) by {
            assert(r2[j] == line[c_idx + j]);
            assert(line[c_idx + j] == s@[c_idx + j]);
        }
        if d < le {
            assert(r2[d - c_idx] == s@[d as int]);
        }
        lemma_token_end_index(r2, d as int - c_idx as int);
    }
    if d == c_idx {
        return Option::None;
    }
    let path = s.substring_char(c_idx, d);
    proof {
        assert(path@ =~= r2.take(d as int - c_idx as int));
    }
    Option::Some(String::from_str(path))
}

/// The page sent back on the single accepted connection; its script lets the
/// browser close the tab.
pub open spec fn response_body() -> Seq<char> {
    "\n<!doctype html>\n<html>\n  <head><meta charset=\"utf-8\"><title>MiniOrg</title></head>\n  <body style=\"font-family: sans-serif; padding: 24px;\">\n    <h2>Login received</h2>\n    <p>You can close this window and return to MiniOrg.</p>\n    <script>window.close();</script>\n  </body>\n</html>\n"@
}

/// The full HTTP response: a 200 status, the HTML content type, the length
/// of the body (the page is plain ASCII, so its characters are its bytes),
/// and a closing connection.
pub open spec fn http_response() -> Seq<char> {
    "HTTP/1.1 200 OK\r\nContent-Type: text/html; charset=utf-8\r\nContent-Length: "@
        + dec_digits(response_body().len()) + "\r\nConnection: close\r\n\r\n"@
        + response_body()
}

/// Builds the fixed response text sent on every served connection.
pub fn build_http_response() -> (r: String)
    ensures
        r@ == http_response(),
{
    let body =
        "\n<!doctype html>\n<html>\n  <head><meta charset=\"utf-8\"><title>MiniOrg</title></head>\n  <body style=\"font-family: sans-serif; padding: 24px;\">\n    <h2>Login received</h2>\n    <p>You can close this window and return to MiniOrg.</p>\n    <script>window.close();</script>\n  </body>\n</html>\n";
    let mut out = String::from_str(
        "HTTP/1.1 200 OK\r\nContent-Type: text/html; charset=utf-8\r\nContent-Length: ",
    );
    let blen = body.unicode_len();
    proof {
        assert(body@ == response_body());
    }
    let d = u64_to_dec(blen as u64);
    out.append(d.as_str());
    out.append("\r\nConnection: close\r\n\r\n");
    out.append(body);
    proof {
        assert(out@ =~= http_response());
    }
    out
}

/// What serving a request delivers: the same outcome, under the same
/// parsing rule, as a deep link carrying the request path behind a synthetic
/// authority — the two delivery paths share one relation — and the generic
/// invalid-callback error when the request has no path at all.
pub open spec fn served_event_rel(req: Seq<char>, r: CallbackEvent) -> bool {
    match request_path_of(req) {
        Option::None => is_invalid_event(r),
        Option::Some(path) => deep_link_rel("http://localhost"@ + path, r),
    }
}

/// Parses one request and pairs the outcome with the fixed response, which
/// is sent whatever the outcome was. The path's query is funnelled through
/// the same handler as a deep link, so downstream consumers see one contract.
pub fn handle_request(req: &str) -> (r: (String, CallbackEvent))
    ensures
        r.0@ == http_response(),
        served_event_rel(req@, r.1),
{
    let event: CallbackEvent = match request_path(req) {
        Option::Some(path) => {
            let mut u = String::from_str("http://localhost");
            u.append(path.as_str());
            handle_deep_link(u.as_str())
        },
        Option::None => CallbackEvent::Error(String::from_str("Invalid OAuth callback")),
    };
    (build_http_response(), event)
}

/// The redirect target advertised for a bound port.
pub open spec fn redirect_uri_of(port: u16) -> Seq<char> {
    "http://127.0.0.1:"@ + dec_digits(port as nat) + "/callback"@
}

/// Renders the redirect target for a bound port.
pub fn redirect_uri_for_port(port: u16) -> (r: String)
    ensures
        r@ == redirect_uri_of(port),
{
    let mut out = String::from_str("http://127.0.0.1:");
    let d = u64_to_dec(port as u64);
    out.append(d.as_str());
    out.append("/callback");
    proof {
        assert(out@ =~= redirect_uri_of(port));
    }
    out
}

/// Where a listener stands in its life: it is created unbound, binds one
/// port, awaits one connection, and ends served or failed.
#[derive(Clone, Copy, PartialEq, Eq, Structural, Debug)]
pub enum ListenerPhase {
    Unbound,
    Bound,
    AwaitingConnection,
    Served,
    Failed,
}

/// The lifecycle model of one capture attempt. The socket itself lives with
/// the caller; this model fixes the order of the steps and that a listener
/// serves at most one connection.
pub struct OAuthListener {
    pub phase: ListenerPhase,
    pub port: u16,
}

impl OAuthListener {
    /// Whether this listener may still accept a connection.
    pub open spec fn accept_enabled(self) -> bool {
        self.phase is AwaitingConnection
    }

    /// A fresh, unbound listener.
    pub fn new() -> (r: OAuthListener)
        ensures
            r.phase is Unbound,
    {
        OAuthListener { phase: ListenerPhase::Unbound, port: 0 }
    }

    /// Records the port the caller bound and advertises the redirect target
    /// to embed in the authorization request.
    pub fn bind(&mut self, port: u16) -> (uri: String)
        requires
            old(self).phase is Unbound,
        ensures
            final(self).phase is Bound,
            final(self).port == port,
            uri@ == redirect_uri_of(port),
    {
        self.phase = ListenerPhase::Bound;
        self.port = port;
        redirect_uri_for_port(port)
    }

    /// Moves to awaiting the single connection.
    pub fn await_connection(&mut self)
        requires
            old(self).phase is Bound,
        ensures
            final(self).phase is AwaitingConnection,
            final(self).port == old(self).port,
            final(self).accept_enabled(),
    {
        self.phase = ListenerPhase::AwaitingConnection;
    }

    /// Whether this listener may still accept a connection.
    pub fn can_accept(&self) -> (b: bool)
        ensures
            b == self.accept_enabled(),
    {
        match self.phase {
            ListenerPhase::AwaitingConnection => true,
            _ => false,
        }
    }

    /// Serves the one accepted connection: parses the request and yields the
    /// fixed response together with the outcome to deliver. The listener is
    /// spent afterwards.
    pub fn serve(&mut self, request: &str) -> (r: (String, CallbackEvent))
        requires
            old(self).accept_enabled(),
        ensures
            final(self).phase is Served,
            !final(self).accept_enabled(),
            final(self).port == old(self).port,
            r.0@ == http_response(),
            served_event_rel(request@, r.1),
    {
        self.phase = ListenerPhase::Served;
        handle_request(request)
    }

    /// Records that the single accept failed; no response and no event are
    /// produced, and the listener is spent.
    pub fn fail_accept(&mut self)
        requires
            old(self).accept_enabled(),
        ensures
            final(self).phase is Failed,
            !final(self).accept_enabled(),
            final(self).port == old(self).port,
    {
        self.phase = ListenerPhase::Failed;
    }
}

/// A listener accepts at most once: only the awaiting phase may accept, and
/// both ways out of it — a served connection or a failed accept — are phases
/// that no transition of the model re-enables.
pub proof fn lemma_at_most_one_accept(l: OAuthListener)
    ensures
        l.accept_enabled() <==> l.phase is AwaitingConnection,
        l.phase is Served || l.phase is Failed ==> !l.accept_enabled(),
{
}

} // verus!
