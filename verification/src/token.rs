//! The stored credential and its durable record format.
//!
//! A credential is persisted as a small JSON-shaped record
//! `{"token":"...","expires_at":...}` whose token text is escaped so that the
//! record can be decoded unambiguously. Encoding and decoding are verified to
//! invert each other; malformed durable content is reported as corruption,
//! never as "logged out". The format is this library's own: the parser
//! accepts what the encoder writes — whose only escapes are `\"` and `\\` —
//! and a record in any other escaping reads back as corruption.

use vstd::prelude::*;

use crate::text::{
    dec_digits, digit_char, digit_val, int_dec_digits, is_digit, is_digit_exec, digit_val_exec,
    chars_match, i64_to_dec, push_char, lemma_dec_digits_are_digits,
};

verus! {

/// A stored credential: an opaque token string and an optional expiry
/// (epoch seconds). At most one such value is current at any time; it is
/// owned by the credential store and handed out only as copies.
#[derive(Debug)]
pub struct AuthToken {
    pub token: String,
    pub expires_at: Option<i64>,
}

impl PartialEq for AuthToken {
    fn eq(&self, other: &AuthToken) -> (r: bool) {
        let expiry_eq = match (self.expires_at, other.expires_at) {
            (Option::None, Option::None) => true,
            (Option::Some(a), Option::Some(b)) => a == b,
            _ => false,
        };
        expiry_eq && self.token == other.token
    }
}

impl vstd::std_specs::cmp::PartialEqSpecImpl for AuthToken {
    open spec fn obeys_eq_spec() -> bool {
        true
    }

    open spec fn eq_spec(&self, other: &AuthToken) -> bool {
        self.token@ == other.token@ && self.expires_at == other.expires_at
    }
}

impl AuthToken {
    /// A field-for-field copy.
    pub fn duplicate(&self) -> (r: AuthToken)
        ensures
            r.token@ == self.token@,
            r.expires_at == self.expires_at,
    {
        AuthToken { token: self.token.clone(), expires_at: self.expires_at }
    }
}

/// How one character of the token text is written in the durable record:
/// quotes and backslashes get a backslash in front, all else is itself.
pub open spec fn escape_char(c: char) -> Seq<char> {
    if c == '"' || c == '\\' {
        seq!['\\', c]
    } else {
        seq![c]
    }
}

/// The escaped form of the whole token text.
pub open spec fn escape_seq(s: Seq<char>) -> Seq<char>
    decreases s.len(),
{
    if s.len() == 0 {
        Seq::empty()
    } else {
        escape_char(s[0]) + escape_seq(s.drop_first())
    }
}

proof fn lemma_escape_seq_snoc(s: Seq<char>, c: char)
    ensures
        escape_seq(s.push(c)) == escape_seq(s) + escape_char(c),
    decreases s.len(),
{
    assert(s.push(c).len() == s.len() + 1);
    if s.len() == 0 {
        assert(s.push(c)[0] == c);
        assert(s.push(c).drop_first() =~= Seq::<char>::empty());
        assert(escape_seq(s.push(c)) == escape_char(c) + escape_seq(Seq::<char>::empty()));
        assert(escape_seq(s.push(c)) =~= escape_seq(s) + escape_char(c));
    } else {
        assert(s.push(c)[0] == s[0]);
        assert(s.push(c).drop_first() =~= s.drop_first().push(c));
        lemma_escape_seq_snoc(s.drop_first(), c);
        assert(escape_seq(s.push(c)) == escape_char(s[0]) + (escape_seq(s.drop_first())
            + escape_char(c)));
        assert(escape_seq(s.push(c)) =~= escape_seq(s) + escape_char(c));
    }
}

/// The digits part of the record: `null` for no expiry, a decimal otherwise.
pub open spec fn expiry_digits(expires_at: Option<i64>) -> Seq<char> {
    match expires_at {
        Option::None => "null"@,
        Option::Some(n) => int_dec_digits(n as int),
    }
}

/// The durable record written for a credential.
pub open spec fn encoded_token(token: Seq<char>, expires_at: Option<i64>) -> Seq<char> {
    "{\"token\":\""@ + escape_seq(token) + "\",\"expires_at\":"@ + expiry_digits(expires_at)
        + "}"@
}

fn append_escaped(out: &mut String, s: &str)
    ensures
        final(out)@ == old(out)@ + escape_seq(s@),
{
    let n = s.unicode_len();
    let mut i: usize = 0;
    while i < n
        invariant
            i <= n,
            n == s@.len(),
            out@ == old(out)@ + escape_seq(s@.subrange(0, i as int)),
        decreases n - i,
    {
        let c = s.get_char(i);
        if c == '"' || c == '\\' {
            push_char(out, '\\');
            push_char(out, c);
        } else {
            push_char(out, c);
        }
        proof {
            lemma_escape_seq_snoc(s@.subrange(0, i as int), s@[i as int]);
            assert(s@.subrange(0, i as int).push(s@[i as int]) =~= s@.subrange(0, i + 1 as int));
            assert(out@ =~= old(out)@ + escape_seq(s@.subrange(0, i + 1 as int)));
        }
        i = i + 1;
    }
    proof {
        assert(s@.subrange(0, n as int) =~= s@);
    }
}

/// Reads the escaped token text up to its closing quote. Yields the decoded
/// text and what follows the quote, or nothing if the text is malformed.
pub open spec fn unescape_prefix(s: Seq<char>) -> Option<(Seq<char>, Seq<char>)>
    decreases s.len(),
{
    if s.len() == 0 {
        Option::None
    } else if s[0] == '"' {
        Option::Some((Seq::empty(), s.drop_first()))
    } else if s[0] == '\\' {
        if s.len() >= 2 && (s[1] == '"' || s[1] == '\\') {
            match unescape_prefix(s.subrange(2, s.len() as int)) {
                Option::Some(p) => Option::Some((seq![s[1]] + p.0, p.1)),
                Option::None => Option::None,
            }
        } else {
            Option::None
        }
    } else {
        match unescape_prefix(s.drop_first()) {
            Option::Some(p) => Option::Some((seq![s[0]] + p.0, p.1)),
            Option::None => Option::None,
        }
    }
}

/// The value of a non-empty run of decimal digits, most significant first.
pub open spec fn parse_digits_value(s: Seq<char>) -> Option<nat>
    decreases s.len(),
{
    if s.len() == 0 {
        Option::None
    } else if !is_digit(s.last()) {
        Option::None
    } else if s.len() == 1 {
        Option::Some(digit_val(s[0]))
    } else {
        match parse_digits_value(s.drop_last()) {
            Option::Some(v) => Option::Some(v * 10 + digit_val(s.last())),
            Option::None => Option::None,
        }
    }
}

/// The value of an optionally signed run of digits, when it fits an `i64`.
pub open spec fn parse_int_value(s: Seq<char>) -> Option<i64> {
    if s.len() >= 1 && s[0] == '-' {
        match parse_digits_value(s.drop_first()) {
            Option::Some(v) => if v <= 9223372036854775808 {
                Option::Some((-(v as int)) as i64)
            } else {
                Option::None
            },
            Option::None => Option::None,
        }
    } else {
        match parse_digits_value(s) {
            Option::Some(v) => if v <= 9223372036854775807 {
                Option::Some(v as i64)
            } else {
                Option::None
            },
            Option::None => Option::None,
        }
    }
}

/// What a durable record decodes to: the token text and expiry it was
/// written from, or nothing if the record is malformed.
pub open spec fn decoded_token(s: Seq<char>) -> Option<(Seq<char>, Option<i64>)> {
    if s.len() < 10 || s.subrange(0, 10) != "{\"token\":\""@ {
        Option::None
    } else {
        match unescape_prefix(s.skip(10)) {
            Option::None => Option::None,
            Option::Some(p) => {
                let rest = p.1;
                if rest.len() < 15 || rest.subrange(0, 14) != ",\"expires_at\":"@
                    || rest.last() != '}' {
                    Option::None
                } else {
                    let body = rest.subrange(14, rest.len() - 1);
                    if body == "null"@ {
                        Option::Some((p.0, Option::None))
                    } else {
                        match parse_int_value(body) {
                            Option::Some(v) => Option::Some((p.0, Option::Some(v))),
                            Option::None => Option::None,
                        }
                    }
                }
            },
        }
    }
}

proof fn lemma_unescape_escape(t: Seq<char>, rest: Seq<char>)
    ensures
        unescape_prefix(escape_seq(t) + seq!['"'] + rest) == Option::Some((t, rest)),
    decreases t.len(),
{
    let s = escape_seq(t) + seq!['"'] + rest;
    if t.len() == 0 {
        assert(escape_seq(t) =~= Seq::<char>::empty());
        assert(s[0] == '"');
        assert(s.drop_first() =~= rest);
    } else {
        let c = t[0];
        assert(escape_seq(t) == escape_char(c) + escape_seq(t.drop_first()));
        lemma_unescape_escape(t.drop_first(), rest);
        if c == '"' || c == '\\' {
            assert(s[0] == '\\');
            assert(s.len() >= 2);
            assert(s[1] == c);
            assert(s.subrange(2, s.len() as int) =~= escape_seq(t.drop_first()) + seq!['"']
                + rest);
            assert(seq![c] + t.drop_first() =~= t);
        } else {
            assert(s[0] == c);
            assert(s.drop_first() =~= escape_seq(t.drop_first()) + seq!['"'] + rest);
            assert(seq![c] + t.drop_first() =~= t);
        }
    }
}

proof fn lemma_parse_dec_digits(n: nat)
    ensures
        parse_digits_value(dec_digits(n)) == Option::Some(n),
    decreases n,
{
    lemma_dec_digits_are_digits(n);
    if n < 10 {
    } else {
        lemma_parse_dec_digits(n / 10);
        lemma_dec_digits_are_digits(n / 10);
        let s = dec_digits(n);
        assert(s == dec_digits(n / 10).push(digit_char(n % 10)));
        assert(s.last() == digit_char(n % 10));
        assert(s.drop_last() =~= dec_digits(n / 10));
        assert(s.len() >= 2);
        assert(n / 10 * 10 + n % 10 == n) by {
            vstd::arithmetic::div_mod::lemma_fundamental_div_mod(n as int, 10);
        }
    }
}

proof fn lemma_nondigit_none(t: Seq<char>, k: int)
    requires
        0 <= k < t.len(),
        !is_digit(t[k]),
    ensures
        parse_digits_value(t) is None,
    decreases t.len(),
{
    if is_digit(t.last()) {
        assert(k < t.len() - 1);
        assert(t.drop_last()[k] == t[k]);
        lemma_nondigit_none(t.drop_last(), k);
    }
}

proof fn lemma_digits_prefix_le(t: Seq<char>, m: int)
    requires
        1 <= m <= t.len(),
        parse_digits_value(t) is Some,
    ensures
        parse_digits_value(t) matches Option::Some(v) ==> (parse_digits_value(t.take(m))
            matches Option::Some(vp) && vp <= v),
    decreases t.len() - m,
{
    if m == t.len() {
        assert(t.take(m) =~= t);
    } else {
        assert(t.len() >= 2);
        lemma_digits_prefix_le(t.drop_last(), m);
        assert(t.drop_last().take(m) =~= t.take(m));
    }
}

fn unescape_exec(s: &str, start: usize) -> (r: Option<(String, usize)>)
    requires
        start <= s@.len(),
    ensures
        r is None ==> unescape_prefix(s@.skip(start as int)) is None,
        r matches Some((tok, pos)) ==> start <= pos <= s@.len() && unescape_prefix(
            s@.skip(start as int),
        ) == Option::Some((tok@, s@.skip(pos as int))),
{
    let n = s.unicode_len();
    let mut i: usize = start;
    let mut tok = String::new();
    loop
        invariant
            start <= i <= n,
            n == s@.len(),
            unescape_prefix(s@.skip(start as int)) == (match unescape_prefix(
                s@.skip(i as int),
            ) {
                Option::Some(p) => Option::Some((tok@ + p.0, p.1)),
                Option::None => Option::None,
            }),
        decreases n - i,
    {
        if i >= n {
            proof {
                assert(s@.skip(i as int).len() == 0);
            }
            return Option::None;
        }
        let c = s.get_char(i);
        proof {
            assert(s@.skip(i as int)[0] == s@[i as int]);
        }
        if c == '"' {
            proof {
                assert(s@.skip(i as int).drop_first() =~= s@.skip(i + 1 as int));
                assert(tok@ + Seq::<char>::empty() =~= tok@);
            }
            return Option::Some((tok, i + 1));
        } else if c == '\\' {
            if i + 1 >= n {
                proof {
                    assert(s@.skip(i as int).len() < 2);
                }
                return Option::None;
            }
            let c2 = s.get_char(i + 1);
            proof {
                assert(s@.skip(i as int)[1] == s@[i + 1 as int]);
            }
            if c2 == '"' || c2 == '\\' {
                let ghost old_tok = tok@;
                push_char(&mut tok, c2);
                proof {
                    let si = s@.skip(i as int);
                    assert(si.subrange(2, si.len() as int) =~= s@.skip(i + 2 as int));
                    match unescape_prefix(s@.skip(i + 2 as int)) {
                        Option::Some(p) => {
                            assert(old_tok + (seq![c2] + p.0) =~= tok@ + p.0);
                        },
                        Option::None => {},
                    }
                }
                i = i + 2;
            } else {
                return Option::None;
            }
        } else {
            let ghost old_tok = tok@;
            push_char(&mut tok, c);
            proof {
                assert(s@.skip(i as int).drop_first() =~= s@.skip(i + 1 as int));
                match unescape_prefix(s@.skip(i + 1 as int)) {
                    Option::Some(p) => {
                        assert(old_tok + (seq![c] + p.0) =~= tok@ + p.0);
                    },
                    Option::None => {},
                }
            }
            i = i + 1;
        }
    }
}

fn parse_int_exec(s: &str, start: usize, end: usize) -> (r: Option<i64>)
    requires
        start <= end <= s@.len(),
    ensures
        r == parse_int_value(s@.subrange(start as int, end as int)),
{
    let ghost body = s@.subrange(start as int, end as int);
    let mut j: usize = start;
    let mut neg: bool = false;
    if start < end && s.get_char(start) == '-' {
        neg = true;
        j = start + 1;
    }
    let ghost digits = s@.subrange(j as int, end as int);
    proof {
        if neg {
            assert(body.drop_first() =~= digits);
        } else {
            assert(body =~= digits);
        }
    }
    let mut acc: u64 = 0;
    let mut k: usize = j;
    while k < end
        invariant
            j <= k <= end,
            end <= s@.len(),
            digits == s@.subrange(j as int, end as int),
            body == s@.subrange(start as int, end as int),
            start <= j <= end,
            neg ==> j == start + 1 && body.len() >= 1 && body[0] == '-' && body.drop_first()
                == digits,
            !neg ==> j == start && body == digits,
            !neg ==> body.len() == 0 || body[0] != '-',
            acc <= 9223372036854775808,
            forall|idx: int| j <= idx < k ==> is_digit(#[trigger] s@[idx]),
            k == j ==> acc == 0,
            k > j ==> parse_digits_value(s@.subrange(j as int, k as int)) == Option::Some(
                acc as nat,
            ),
        decreases end - k,
    {
        let c = s.get_char(k);
        if !is_digit_exec(c) {
            proof {
                assert(digits[k - j] == s@[k as int]);
                lemma_nondigit_none(digits, k - j);
            }
            return Option::None;
        }
        let d = digit_val_exec(c);
        if acc > 922337203685477580 || (acc == 922337203685477580 && d > 8) {
            proof {
                let prefix = s@.subrange(j as int, k + 1 as int);
                assert(prefix.drop_last() =~= s@.subrange(j as int, k as int));
                assert(prefix.last() == s@[k as int]);
                assert(parse_digits_value(prefix) == Option::Some(
                    (acc * 10 + d) as nat,
                ));
                assert(acc * 10 + d > 9223372036854775808);
                if parse_digits_value(digits) is Some {
                    assert(digits.take(k + 1 - j) =~= prefix);
                    lemma_digits_prefix_le(digits, k + 1 - j);
                }
            }
            return Option::None;
        }
        let ghost old_acc = acc;
        acc = acc * 10 + d;
        proof {
            let prefix = s@.subrange(j as int, k + 1 as int);
            assert(prefix.drop_last() =~= s@.subrange(j as int, k as int));
            assert(prefix.last() == s@[k as int]);
            if k == j {
                assert(prefix.len() == 1);
                assert(prefix[0] == s@[k as int]);
            }
            assert(parse_digits_value(prefix) == Option::Some(acc as nat));
        }
        k = k + 1;
    }
    if j == end {
        proof {
            assert(digits.len() == 0);
        }
        return Option::None;
    }
    proof {
        assert(s@.subrange(j as int, k as int) =~= digits);
        assert(parse_digits_value(digits) == Option::Some(acc as nat));
        assert(is_digit(digits[0]));
        assert(digits[0] != '-');
    }
    if neg {
        let r: i64 = if acc == 9223372036854775808 {
            i64::MIN
        } else {
            -(acc as i64)
        };
        proof {
            assert(r as int == -(acc as int));
        }
        Option::Some(r)
    } else {
        proof {
            if body.len() >= 1 {
                assert(body[0] == digits[0]);
            }
        }
        if acc > 9223372036854775807 {
            Option::None
        } else {
            Option::Some(acc as i64)
        }
    }
}

/// Reads a durable record back into a credential. Yields nothing when the
/// record is not a well-formed encoding; the store reports that as
/// corruption, distinct from an absent record.
pub fn parse_auth_token(s: &str) -> (r: Option<AuthToken>)
    ensures
        r is Some <==> decoded_token(s@) is Some,
        r matches Some(t) ==> decoded_token(s@) == Option::Some((t.token@, t.expires_at)),
{
    proof {
        reveal_strlit("{\"token\":\"");
        reveal_strlit(",\"expires_at\":");
        reveal_strlit("null");
    }
    let n = s.unicode_len();
    if n < 10 {
        return Option::None;
    }
    if !chars_match(s, 0, "{\"token\":\"") {
        return Option::None;
    }
    let unescaped = unescape_exec(s, 10);
    match unescaped {
        Option::None => Option::None,
        Option::Some((tok, pos)) => {
            let ghost rest = s@.skip(pos as int);
            if n - pos < 15 {
                return Option::None;
            }
            if !chars_match(s, pos, ",\"expires_at\":") {
                proof {
                    assert(rest.subrange(0, 14) =~= s@.subrange(pos as int, pos + 14 as int));
                }
                return Option::None;
            }
            proof {
                assert(rest.subrange(0, 14) =~= s@.subrange(pos as int, pos + 14 as int));
            }
            if s.get_char(n - 1) != '}' {
                proof {
                    assert(rest.last() == s@[n - 1 as int]);
                }
                return Option::None;
            }
            proof {
                assert(rest.last() == s@[n - 1 as int]);
            }
            let body_start = pos + 14;
            let body_end = n - 1;
            let ghost body = rest.subrange(14, rest.len() - 1);
            proof {
                assert(body =~= s@.subrange(body_start as int, body_end as int));
                assert("null"@.len() == 4);
            }
            if body_end - body_start == 4 && chars_match(s, body_start, "null") {
                proof {
                    assert(body =~= s@.subrange(body_start as int, body_start + 4 as int));
                }
                Option::Some(AuthToken { token: tok, expires_at: Option::None })
            } else {
                proof {
                    if body == "null"@ {
                        assert(body.len() == 4);
                        assert(s@.subrange(body_start as int, body_start + 4 as int) =~= body);
                    }
                }
                let parsed = parse_int_exec(s, body_start, body_end);
                proof {
                    assert(s@.subrange(body_start as int, body_end as int) =~= body);
                }
                match parsed {
                    Option::Some(v) => Option::Some(
                        AuthToken { token: tok, expires_at: Option::Some(v) },
                    ),
                    Option::None => Option::None,
                }
            }
        },
    }
}

/// Writing a credential's record and reading it back yields the credential
/// unchanged, for every token text and every optional expiry.
pub proof fn lemma_stored_token_round_trip(token: Seq<char>, expires_at: Option<i64>)
    ensures
        decoded_token(encoded_token(token, expires_at)) == Option::Some((token, expires_at)),
{
    reveal_strlit("{\"token\":\"");
    reveal_strlit("\",\"expires_at\":");
    reveal_strlit(",\"expires_at\":");
    reveal_strlit("}");
    reveal_strlit("null");
    let s = encoded_token(token, expires_at);
    let pre = "{\"token\":\""@;
    let mid = "\",\"expires_at\":"@;
    let mid2 = ",\"expires_at\":"@;
    let close = "}"@;
    let digits = expiry_digits(expires_at);
    assert(pre.len() == 10);
    assert(mid.len() == 15);
    assert(mid2.len() == 14);
    assert(close.len() == 1);
    assert(mid =~= seq!['"'] + mid2);
    match expires_at {
        Option::None => {
            assert(digits.len() == 4);
        },
        Option::Some(v) => {
            let m: nat = if (v as int) < 0 { (-(v as int)) as nat } else { v as nat };
            lemma_dec_digits_are_digits(m);
            assert(digits.len() >= 1);
        },
    }
    let rest = mid2 + digits + close;
    assert(s.len() >= 10);
    assert(s.subrange(0, 10) =~= pre);
    assert(s.skip(10) =~= escape_seq(token) + seq!['"'] + rest);
    lemma_unescape_escape(token, rest);
    assert(unescape_prefix(s.skip(10)) == Option::Some((token, rest)));
    assert(rest.len() >= 15);
    assert(rest.subrange(0, 14) =~= mid2);
    assert(rest.last() == '}');
    let body = rest.subrange(14, rest.len() - 1);
    assert(body =~= digits);
    match expires_at {
        Option::None => {
            assert(body == "null"@);
        },
        Option::Some(v) => {
            if (v as int) >= 0 {
                let m = v as nat;
                assert(digits == dec_digits(m));
                lemma_dec_digits_are_digits(m);
                assert(is_digit(body[0]));
                assert(body[0] != 'n');
                assert(body != "null"@);
                assert(body[0] != '-');
                lemma_parse_dec_digits(m);
                assert(parse_int_value(body) == Option::Some(v));
            } else {
                let m = (-(v as int)) as nat;
                assert(digits == seq!['-'] + dec_digits(m));
                assert(body[0] == '-');
                assert(body[0] != 'n');
                assert(body != "null"@);
                assert(body.drop_first() =~= dec_digits(m));
                lemma_parse_dec_digits(m);
                assert(m <= 9223372036854775808);
                assert(parse_int_value(body) == Option::Some(v));
            }
        },
    }
}

/// Writes the durable record for a credential.
pub fn encode_auth_token(t: &AuthToken) -> (r: String)
    ensures
        r@ == encoded_token(t.token@, t.expires_at),
{
    let mut out = String::from_str("{\"token\":\"");
    append_escaped(&mut out, t.token.as_str());
    out.append("\",\"expires_at\":");
    match t.expires_at {
        Option::None => {
            out.append("null");
        },
        Option::Some(n) => {
            let d = i64_to_dec(n);
            out.append(d.as_str());
        },
    }
    out.append("}");
    proof {
        assert(out@ =~= encoded_token(t.token@, t.expires_at));
    }
    out
}

} // verus!
