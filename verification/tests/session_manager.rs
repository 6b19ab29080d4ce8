//! Session establishment, cookie synchronization, and request building.

use syres::errors::SessionError;
use syres::session::{
    build_authenticated_request, check_status, cookie_header_value, establish_session,
    find_cookie, harvest_cookies, parse_set_cookie, CookiePolicy, Method,
};

fn bv(s: &str) -> Vec<u8> {
    s.as_bytes().to_vec()
}

#[test]
fn parses_set_cookie_value_up_to_first_semicolon() {
    let raw = b"X-Skedda-RequestVerificationCookie=CfDJ8F; path=/; HttpOnly";
    assert_eq!(
        parse_set_cookie(raw),
        Some((bv("X-Skedda-RequestVerificationCookie"), bv("CfDJ8F")))
    );
}

#[test]
fn set_cookie_without_equals_is_skipped() {
    assert_eq!(parse_set_cookie(b"malformed; path=/"), None);
    let harvested = harvest_cookies(&vec![bv("nope"), bv("a=1"), bv("b=2; Secure")]);
    assert_eq!(harvested, vec![(bv("a"), bv("1")), (bv("b"), bv("2"))]);
}

#[test]
fn joins_cookies_in_order() {
    let cookies = vec![(bv("a"), bv("1")), (bv("b"), bv("2"))];
    assert_eq!(cookie_header_value(&cookies), bv("a=1; b=2"));
    assert_eq!(cookie_header_value(&Vec::new()), Vec::<u8>::new());
    assert_eq!(cookie_header_value(&vec![(bv("only"), bv("x"))]), bv("only=x"));
}

#[test]
fn finds_first_cookie_by_name() {
    let cookies = vec![(bv("a"), bv("1")), (bv("sec"), bv("first")), (bv("sec"), bv("second"))];
    assert_eq!(find_cookie(&cookies, b"sec"), Some((bv("sec"), bv("first"))));
    assert_eq!(find_cookie(&cookies, b"missing"), None);
}

#[test]
fn establishes_session_from_one_exchange() {
    let body = r#"<input name="__RequestVerificationToken" value="tok123" />"#;
    let set_cookies = vec![bv("X-Skedda-RequestVerificationCookie=c1; HttpOnly"), bv("ai_user=u1")];
    let ctx = establish_session(bv("https://example.test"), body.as_bytes(), &set_cookies).unwrap();
    assert_eq!(ctx.anti_forgery_token, bv("tok123"));
    assert_eq!(
        ctx.cookies,
        vec![(bv("X-Skedda-RequestVerificationCookie"), bv("c1")), (bv("ai_user"), bv("u1"))]
    );
    assert_eq!(ctx.base_address, bv("https://example.test"));
}

#[test]
fn session_fails_without_token_not_with_a_guess() {
    let body = b"<html><body>plain page</body></html>";
    let r = establish_session(bv("https://example.test"), body, &Vec::new());
    assert!(matches!(r, Err(SessionError::TokenNotFound)));
}

#[test]
fn builds_authenticated_request_with_client_store_policy() {
    let body = r#"<input name="__RequestVerificationToken" value="tok" />"#;
    let ctx = establish_session(bv("https://example.test"), body.as_bytes(), &vec![bv("s=1")])
        .unwrap();
    let req = build_authenticated_request(Method::Get, bv("/webs"), &ctx, CookiePolicy::ClientStore);
    assert_eq!(req.method, Method::Get);
    assert_eq!(req.path, bv("/webs"));
    assert_eq!(
        req.headers,
        vec![
            (bv("X-Skedda-RequestVerificationToken"), bv("tok")),
            (bv("Accept"), bv("application/json")),
            (bv("Referer"), bv("https://example.test/booking")),
        ]
    );
}

#[test]
fn harvest_replay_policy_replays_every_cookie() {
    let body = r#"<input name="__RequestVerificationToken" value="tok" />"#;
    let set_cookies = vec![bv("a=1; Path=/"), bv("b=2")];
    let ctx = establish_session(bv("https://example.test"), body.as_bytes(), &set_cookies).unwrap();
    let req = build_authenticated_request(
        Method::Get,
        bv("/webs"),
        &ctx,
        CookiePolicy::HarvestReplay,
    );
    assert_eq!(req.headers.last(), Some(&(bv("Cookie"), bv("a=1; b=2"))));
}

#[test]
fn harvest_replay_with_nothing_harvested_adds_no_cookie_header() {
    let body = r#"<input name="__RequestVerificationToken" value="tok" />"#;
    let ctx = establish_session(bv("https://example.test"), body.as_bytes(), &Vec::new()).unwrap();
    let req = build_authenticated_request(
        Method::Get,
        bv("/webs"),
        &ctx,
        CookiePolicy::HarvestReplay,
    );
    assert_eq!(req.headers.len(), 3);
    assert!(req.headers.iter().all(|(name, _)| name != b"Cookie"));
}

#[test]
fn single_named_policy_replays_only_the_security_cookie() {
    let body = r#"<input name="__RequestVerificationToken" value="tok" />"#;
    let set_cookies = vec![
        bv("ai_user=u1"),
        bv("X-Skedda-RequestVerificationCookie=c9; HttpOnly"),
        bv("other=zz"),
    ];
    let ctx = establish_session(bv("https://example.test"), body.as_bytes(), &set_cookies).unwrap();
    let req = build_authenticated_request(
        Method::Post,
        bv("/booking"),
        &ctx,
        CookiePolicy::SingleNamed,
    );
    assert_eq!(req.method, Method::Post);
    assert_eq!(
        req.headers.last(),
        Some(&(bv("Cookie"), bv("X-Skedda-RequestVerificationCookie=c9")))
    );
}

#[test]
fn single_named_policy_without_the_cookie_adds_no_header() {
    let body = r#"<input name="__RequestVerificationToken" value="tok" />"#;
    let ctx = establish_session(bv("https://example.test"), body.as_bytes(), &vec![bv("a=1")])
        .unwrap();
    let req = build_authenticated_request(Method::Get, bv("/webs"), &ctx, CookiePolicy::SingleNamed);
    assert_eq!(req.headers.len(), 3);
}

#[test]
fn status_check_accepts_exactly_the_success_range() {
    assert!(check_status(200).is_ok());
    assert!(check_status(204).is_ok());
    assert!(check_status(299).is_ok());
    assert_eq!(check_status(199), Err(SessionError::HttpStatus(199)));
    assert_eq!(check_status(302), Err(SessionError::HttpStatus(302)));
    assert_eq!(check_status(404), Err(SessionError::HttpStatus(404)));
    assert_eq!(check_status(500), Err(SessionError::HttpStatus(500)));
}
