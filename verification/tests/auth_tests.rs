use kart_stocks::twitch_auth::{
    auth_url, first_line, parse_redirect, redirect_uri, tcp_uri, token_still_valid, Redirect,
};

#[test]
fn addresses() {
    assert_eq!(redirect_uri(3000), "http://localhost:3000");
    assert_eq!(tcp_uri(3000), "127.0.0.1:3000");
    assert_eq!(
        auth_url("abc", "http://localhost:3000"),
        "https://id.twitch.tv/oauth2/authorize?client_id=abc&redirect_uri=http://localhost:3000&response_type=code&scope=chat:read%20chat:edit"
    );
}

#[test]
fn token_validity() {
    assert!(token_still_valid(99, 50, 50));
    assert!(!token_still_valid(100, 50, 50));
    assert!(!token_still_valid(200, 50, 50));
}

#[test]
fn first_lines() {
    assert_eq!(first_line("GET /?code=x HTTP/1.1\r\nHost: a\r\n\r\n"), Some("GET /?code=x HTTP/1.1".into()));
    assert_eq!(first_line("single"), Some("single".into()));
    assert_eq!(first_line("\n"), Some("".into()));
    assert_eq!(first_line(""), None);
    for s in ["a\r\nb", "x\r", "\r\n", "line\n\n"] {
        assert_eq!(first_line(s), s.lines().next().map(|l| l.to_string()));
    }
}

#[test]
fn redirects() {
    assert_eq!(
        parse_redirect("GET /?code=abc123&scope=chat%3Aread HTTP/1.1"),
        Redirect::Code("abc123".into())
    );
    assert_eq!(parse_redirect("GET /?code=zz HTTP/1.1"), Redirect::Code("zz".into()));
    assert_eq!(
        parse_redirect("GET /?error=access_denied&error_description=The+user+denied&state=1 HTTP/1.1"),
        Redirect::Refused("The user denied".into())
    );
    assert_eq!(parse_redirect("GET / HTTP/1.1"), Redirect::NoCode);
    assert_eq!(parse_redirect("GET /?code=acode=b HTTP/1.1"), Redirect::Code("a".into()));
}

#[test]
fn saved_tokens_are_reused_until_they_expire() {
    let s = kart_stocks::twitch_auth::save_token("tok".to_string(), 100, 1000);
    assert_eq!(s.retrieval_time, 1000);
    let stored = Some(s);
    assert_eq!(kart_stocks::twitch_auth::cached_token(&stored, 1000), Some("tok".to_string()));
    assert_eq!(kart_stocks::twitch_auth::cached_token(&stored, 1099), Some("tok".to_string()));
    assert_eq!(kart_stocks::twitch_auth::cached_token(&stored, 1100), None);
    assert_eq!(kart_stocks::twitch_auth::cached_token(&None, 0), None);
}

#[test]
fn token_request_form() {
    let form = kart_stocks::twitch_auth::token_form("id", "shh", "c0de", "http://localhost:3000");
    let expected: Vec<(String, String)> = vec![
        ("client_id".into(), "id".into()),
        ("client_secret".into(), "shh".into()),
        ("code".into(), "c0de".into()),
        ("grant_type".into(), "authorization_code".into()),
        ("redirect_uri".into(), "http://localhost:3000".into()),
    ];
    assert_eq!(form, expected);
}

#[test]
fn first_code_up_to_its_end_is_taken() {
    assert_eq!(parse_redirect("GET /?code=abc&state=code=zz HTTP/1.1"), Redirect::Code("abc".into()));
    assert_eq!(parse_redirect("code=end"), Redirect::Code("end".into()));
}
