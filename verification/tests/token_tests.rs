use miniorg::token::{encode_auth_token, parse_auth_token, AuthToken};

fn tok(token: &str, expires_at: Option<i64>) -> AuthToken {
    AuthToken { token: token.to_string(), expires_at }
}

#[test]
fn encode_plain_token() {
    let t = tok("abc", None);
    assert_eq!(encode_auth_token(&t), "{\"token\":\"abc\",\"expires_at\":null}");
}

#[test]
fn encode_token_with_expiry() {
    let t = tok("abc", Some(1234567890));
    assert_eq!(encode_auth_token(&t), "{\"token\":\"abc\",\"expires_at\":1234567890}");
}

#[test]
fn encode_token_with_negative_expiry() {
    let t = tok("x", Some(-7));
    assert_eq!(encode_auth_token(&t), "{\"token\":\"x\",\"expires_at\":-7}");
}

#[test]
fn encode_escapes_quotes_and_backslashes() {
    let t = tok("a\"b\\c", None);
    assert_eq!(encode_auth_token(&t), "{\"token\":\"a\\\"b\\\\c\",\"expires_at\":null}");
}

#[test]
fn round_trip_plain() {
    let t = tok("tok-123", Some(99));
    let parsed = parse_auth_token(&encode_auth_token(&t)).unwrap();
    assert_eq!(parsed, t);
}

#[test]
fn round_trip_empty_token() {
    let t = tok("", None);
    let parsed = parse_auth_token(&encode_auth_token(&t)).unwrap();
    assert_eq!(parsed, t);
}

#[test]
fn round_trip_special_characters() {
    let t = tok("a\"b\\c{}:,\u{e9}", Some(-1));
    let parsed = parse_auth_token(&encode_auth_token(&t)).unwrap();
    assert_eq!(parsed, t);
}

#[test]
fn round_trip_extreme_expiries() {
    for e in [Some(i64::MIN), Some(i64::MAX), Some(0), None] {
        let t = tok("t", e);
        let parsed = parse_auth_token(&encode_auth_token(&t)).unwrap();
        assert_eq!(parsed, t);
    }
}

#[test]
fn parse_rejects_malformed_records() {
    assert!(parse_auth_token("").is_none());
    assert!(parse_auth_token("{}").is_none());
    assert!(parse_auth_token("not json at all").is_none());
    assert!(parse_auth_token("{\"token\":\"abc\"}").is_none());
    assert!(parse_auth_token("{\"token\":\"abc").is_none());
    assert!(parse_auth_token("{\"token\":\"a\\x\",\"expires_at\":null}").is_none());
    assert!(parse_auth_token("{\"token\":\"a\",\"expires_at\":}").is_none());
    assert!(parse_auth_token("{\"token\":\"a\",\"expires_at\":12x3}").is_none());
    assert!(parse_auth_token("{\"token\":\"a\",\"expires_at\":null}trailing").is_none());
}

#[test]
fn parse_rejects_out_of_range_expiry() {
    assert!(parse_auth_token("{\"token\":\"a\",\"expires_at\":9223372036854775808}").is_none());
    assert!(parse_auth_token("{\"token\":\"a\",\"expires_at\":-9223372036854775809}").is_none());
    assert!(parse_auth_token("{\"token\":\"a\",\"expires_at\":99999999999999999999999}").is_none());
}

#[test]
fn parse_accepts_boundary_expiries() {
    let max = parse_auth_token("{\"token\":\"a\",\"expires_at\":9223372036854775807}").unwrap();
    assert_eq!(max.expires_at, Some(i64::MAX));
    let min = parse_auth_token("{\"token\":\"a\",\"expires_at\":-9223372036854775808}").unwrap();
    assert_eq!(min.expires_at, Some(i64::MIN));
}

#[test]
fn parse_accepts_redundant_leading_zeros() {
    let t = parse_auth_token("{\"token\":\"a\",\"expires_at\":007}").unwrap();
    assert_eq!(t.expires_at, Some(7));
}
