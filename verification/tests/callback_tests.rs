use miniorg::callback::{handle_deep_link, parse_callback_url, CallbackEvent, CallbackParse};
use miniorg::listener::{handle_request, redirect_uri_for_port, OAuthListener};

#[test]
fn code_wins_over_error_in_same_callback() {
    let (_, event) = handle_request("GET /callback?code=ABC&error=ignored HTTP/1.1\r\nHost: x\r\n\r\n");
    match event {
        CallbackEvent::CodeReceived(p) => {
            assert_eq!(p.code, "ABC");
            assert_eq!(p.state, None);
        },
        CallbackEvent::Error(e) => panic!("expected a code, got error {e}"),
    }
}

#[test]
fn error_alone_is_reported_as_provider_error() {
    let (_, event) = handle_request("GET /callback?error=denied HTTP/1.1\r\n\r\n");
    match event {
        CallbackEvent::Error(e) => assert_eq!(e, "denied"),
        CallbackEvent::CodeReceived(_) => panic!("expected an error"),
    }
}

#[test]
fn neither_parameter_gives_generic_invalid_callback() {
    let (_, event) = handle_request("GET /callback HTTP/1.1\r\n\r\n");
    match event {
        CallbackEvent::Error(e) => assert_eq!(e, "Invalid OAuth callback"),
        CallbackEvent::CodeReceived(_) => panic!("expected the generic error"),
    }
}

#[test]
fn empty_request_gives_generic_invalid_callback() {
    let (_, event) = handle_request("");
    match event {
        CallbackEvent::Error(e) => assert_eq!(e, "Invalid OAuth callback"),
        CallbackEvent::CodeReceived(_) => panic!("expected the generic error"),
    }
}

#[test]
fn response_is_always_the_closing_page() {
    let (resp_ok, _) = handle_request("GET /callback?code=1 HTTP/1.1\r\n\r\n");
    let (resp_bad, _) = handle_request("garbage");
    for resp in [resp_ok, resp_bad] {
        assert!(resp.starts_with("HTTP/1.1 200 OK\r\n"));
        assert!(resp.contains("Content-Type: text/html; charset=utf-8"));
        assert!(resp.contains("Connection: close"));
        assert!(resp.contains("window.close();"));
        let (head, body) = resp.split_once("\r\n\r\n").unwrap();
        let len_line = head
            .lines()
            .find(|l| l.starts_with("Content-Length: "))
            .unwrap();
        let announced: usize = len_line["Content-Length: ".len()..].parse().unwrap();
        assert_eq!(announced, body.len());
    }
}

#[test]
fn request_line_splits_on_any_unicode_whitespace() {
    let (_, event) = handle_request("GET\u{0c}/callback?code=1 HTTP/1.1\r\n\r\n");
    match event {
        CallbackEvent::CodeReceived(p) => assert_eq!(p.code, "1"),
        CallbackEvent::Error(e) => panic!("expected a code, got error {e}"),
    }
    let (_, event) = handle_request("GET\u{a0}/callback?error=d\u{a0}HTTP/1.1\r\n\r\n");
    match event {
        CallbackEvent::Error(e) => assert_eq!(e, "d"),
        CallbackEvent::CodeReceived(_) => panic!("expected an error"),
    }
}

#[test]
fn query_values_are_percent_decoded() {
    let (_, event) = handle_request("GET /callback?code=A%20B&state=s%2F1 HTTP/1.1\r\n\r\n");
    match event {
        CallbackEvent::CodeReceived(p) => {
            assert_eq!(p.code, "A B");
            assert_eq!(p.state, Some("s/1".to_string()));
        },
        CallbackEvent::Error(e) => panic!("expected a code, got error {e}"),
    }
}

#[test]
fn deep_link_with_code_and_state() {
    let event = handle_deep_link("miniorg://auth/callback?code=xyz&state=s9");
    match event {
        CallbackEvent::CodeReceived(p) => {
            assert_eq!(p.code, "xyz");
            assert_eq!(p.state, Some("s9".to_string()));
        },
        CallbackEvent::Error(e) => panic!("expected a code, got error {e}"),
    }
}

#[test]
fn deep_link_with_error_only() {
    let event = handle_deep_link("miniorg://auth/callback?error=denied");
    match event {
        CallbackEvent::Error(e) => assert_eq!(e, "denied"),
        CallbackEvent::CodeReceived(_) => panic!("expected an error"),
    }
}

#[test]
fn deep_link_without_parameters_is_invalid_callback() {
    for link in ["miniorg://auth/callback", "not a url at all"] {
        match handle_deep_link(link) {
            CallbackEvent::Error(e) => assert_eq!(e, "Invalid OAuth callback"),
            CallbackEvent::CodeReceived(_) => panic!("expected the generic error"),
        }
    }
}

#[test]
fn parse_callback_url_classifies_pairs() {
    assert!(matches!(
        parse_callback_url("http://localhost/callback?code=1&error=2"),
        CallbackParse::CodeFound(_)
    ));
    assert!(matches!(
        parse_callback_url("http://localhost/callback?error=2"),
        CallbackParse::ErrorFound(_)
    ));
    assert!(matches!(
        parse_callback_url("http://localhost/callback"),
        CallbackParse::Neither
    ));
}

#[test]
fn advertised_redirect_uri_carries_the_port() {
    assert_eq!(redirect_uri_for_port(54321), "http://127.0.0.1:54321/callback");
    assert_eq!(redirect_uri_for_port(0), "http://127.0.0.1:0/callback");
    assert_eq!(redirect_uri_for_port(65535), "http://127.0.0.1:65535/callback");
}

#[test]
fn end_to_end_capture_scenario() {
    let mut listener = OAuthListener::new();
    let uri = listener.bind(54321);
    assert_eq!(uri, "http://127.0.0.1:54321/callback");
    listener.await_connection();
    assert!(listener.can_accept());
    let (response, event) = listener.serve("GET /callback?code=XYZ&state=s1 HTTP/1.1\r\nHost: 127.0.0.1\r\n\r\n");
    assert!(response.starts_with("HTTP/1.1 200 OK\r\n"));
    assert!(response.contains("window.close();"));
    match event {
        CallbackEvent::CodeReceived(p) => {
            assert_eq!(p.code, "XYZ");
            assert_eq!(p.state, Some("s1".to_string()));
        },
        CallbackEvent::Error(e) => panic!("expected a code, got error {e}"),
    }
    assert!(!listener.can_accept());
}

#[test]
fn failed_accept_also_spends_the_listener() {
    let mut listener = OAuthListener::new();
    let _ = listener.bind(1);
    listener.await_connection();
    listener.fail_accept();
    assert!(!listener.can_accept());
}
