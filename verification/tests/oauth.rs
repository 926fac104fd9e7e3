use mlmail::oauth::{
    accept_callback, build_auth_url, callback_response, loopback_redirect_uri, parse_callback_query,
    push_query, random_state, state_from_bytes, url_decode, AuthError,
};

#[test]
fn build_auth_url_contains_required_oauth_params() {
    let url = build_auth_url("CID", "http://127.0.0.1:7777/cb", "CHALLENGE", "STATE");
    assert!(url.contains("client_id=CID"));
    assert!(url.contains("redirect_uri=http%3A%2F%2F127.0.0.1%3A7777%2Fcb"));
    assert!(url.contains("response_type=code"));
    assert!(url.contains("code_challenge=CHALLENGE"));
    assert!(url.contains("code_challenge_method=S256"));
    assert!(url.contains("state=STATE"));
    assert!(url.contains("access_type=offline"));
    assert!(url.contains("prompt=consent"));
    assert!(url.contains("scope=openid%20email%20https"));
    assert!(url.contains("gmail.settings.basic"));
}

#[test]
fn parses_code_and_state_from_callback_request_line() {
    let line = "GET /callback?code=ABC123&state=XYZ HTTP/1.1\r\n";
    let (code, state) = parse_callback_query(line).unwrap();
    assert_eq!(code, "ABC123");
    assert_eq!(state, "XYZ");
}

#[test]
fn returns_error_when_google_returned_error_param() {
    let line = "GET /callback?error=access_denied HTTP/1.1\r\n";
    let err = parse_callback_query(line).unwrap_err();
    assert!(matches!(err, AuthError::OAuth(_)));
}

#[test]
fn returns_error_when_query_missing() {
    let line = "GET /callback HTTP/1.1\r\n";
    let err = parse_callback_query(line).unwrap_err();
    assert!(matches!(err, AuthError::OAuth(_)));
}

#[test]
fn url_decodes_percent_and_plus() {
    assert_eq!(url_decode("hello%20world"), "hello world");
    assert_eq!(url_decode("a+b"), "a b");
    assert_eq!(url_decode("%21%40%23"), "!@#");
}

fn oauth_message(err: AuthError) -> String {
    match err {
        AuthError::OAuth(message) => message,
        other => panic!("unexpected error {other:?}"),
    }
}

#[test]
fn auth_url_is_exact() {
    let url = build_auth_url("c id", "http://127.0.0.1:1/callback", "ch", "st");
    assert_eq!(
        url,
        "https://accounts.google.com/o/oauth2/v2/auth?client_id=c%20id&redirect_uri=http%3A%2F%2F127.0.0.1%3A1%2Fcallback&response_type=code&scope=openid%20email%20https%3A%2F%2Fwww.googleapis.com%2Fauth%2Fgmail.modify%20https%3A%2F%2Fwww.googleapis.com%2Fauth%2Fgmail.settings.basic&code_challenge=ch&code_challenge_method=S256&state=st&access_type=offline&prompt=consent"
    );
}

#[test]
fn push_query_escapes_reserved_and_non_ascii_bytes() {
    let mut out = String::from("x?");
    push_query(&mut out, "k", "a-b_c.d~e+f/g é");
    assert_eq!(out, "x?k=a-b_c.d~e%2Bf%2Fg%20%C3%A9");
}

#[test]
fn url_decode_keeps_incomplete_escapes_and_accepts_lower_case() {
    assert_eq!(url_decode("100%"), "100%");
    assert_eq!(url_decode("%2"), "%2");
    assert_eq!(url_decode("%zz"), "%zz");
    assert_eq!(url_decode("%c3%a9"), "é");
}

#[test]
fn url_decode_replaces_invalid_utf8() {
    assert_eq!(url_decode("%FFok"), "\u{FFFD}ok");
}

#[test]
fn encoded_query_values_decode_back() {
    for value in ["plain", "a b+c&d=e", "ünïcödé ✓", "%41"] {
        let mut out = String::new();
        push_query(&mut out, "v", value);
        assert_eq!(url_decode(&out["v=".len()..]), value);
    }
}

#[test]
fn callback_errors_name_what_is_missing() {
    assert_eq!(oauth_message(parse_callback_query("GET").unwrap_err()), "malformed callback request");
    assert_eq!(
        oauth_message(parse_callback_query("GET /callback HTTP/1.1").unwrap_err()),
        "missing query in callback"
    );
    assert_eq!(
        oauth_message(parse_callback_query("GET /cb?state=S HTTP/1.1").unwrap_err()),
        "no code in callback"
    );
    assert_eq!(
        oauth_message(parse_callback_query("GET /cb?code=C HTTP/1.1").unwrap_err()),
        "no state in callback"
    );
    assert_eq!(
        oauth_message(parse_callback_query("GET /cb?code=C&error=access%20denied&state=S HTTP/1.1").unwrap_err()),
        "access denied"
    );
}

#[test]
fn callback_keeps_the_last_code_and_state_and_skips_other_pairs() {
    let (code, state) =
        parse_callback_query("  GET\t/cb?x&code=1&scope=a+b&state=s%2Fx&code=2  HTTP/1.1\r\n").unwrap();
    assert_eq!(code, "2");
    assert_eq!(state, "s/x");
}

#[test]
fn callback_with_another_state_is_refused() {
    let line = "GET /callback?code=ABC&state=XYZ HTTP/1.1\r\n";
    assert_eq!(accept_callback(line, "XYZ").unwrap(), "ABC");
    assert_eq!(oauth_message(accept_callback(line, "OTHER").unwrap_err()), "CSRF state mismatch");
}

#[test]
fn random_state_is_22_url_safe_characters_and_sent_verbatim() {
    let first = random_state().unwrap();
    let second = random_state().unwrap();
    for state in [&first, &second] {
        assert_eq!(state.len(), 22);
        assert!(state.bytes().all(|b| b.is_ascii_alphanumeric() || b == b'-' || b == b'_'));
        let url = build_auth_url("c", "r", "h", state);
        assert!(url.contains(&format!("&state={state}&")));
    }
    assert_ne!(first, second);
}

#[test]
fn redirect_uri_names_the_loopback_port() {
    assert_eq!(loopback_redirect_uri(0), "http://127.0.0.1:0/callback");
    assert_eq!(loopback_redirect_uri(7777), "http://127.0.0.1:7777/callback");
    assert_eq!(loopback_redirect_uri(65535), "http://127.0.0.1:65535/callback");
}

#[test]
fn callback_response_counts_body_bytes() {
    let body = "<h1>Готово</h1>";
    let reply = callback_response(body);
    assert_eq!(
        reply,
        format!(
            "HTTP/1.1 200 OK\r\nContent-Type: text/html; charset=utf-8\r\nContent-Length: {}\r\nConnection: close\r\n\r\n{}",
            body.len(),
            body
        )
    );
    assert!(reply.contains("Content-Length: 21\r\n"));
}

#[test]
fn state_is_the_unpadded_url_safe_base64_of_its_bytes() {
    assert_eq!(state_from_bytes(&[0u8; 16]), "AAAAAAAAAAAAAAAAAAAAAA");
    let mut bytes = [0u8; 16];
    for (i, b) in bytes.iter_mut().enumerate() {
        *b = 240 + i as u8;
    }
    assert_eq!(state_from_bytes(&bytes), "8PHy8_T19vf4-fr7_P3-_w");
}
