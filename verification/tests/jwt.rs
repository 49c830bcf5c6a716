use std::cell::RefCell;
use std::rc::Rc;
use tollgate::compare::{CompareStr, Nothing};
use tollgate::http::{Request, Response};
use tollgate::interceptor::Step;
use tollgate::jwt::extractor::Jwt;
use tollgate::jwt::middleware::{guard, JwtAuth, Passage};
use tollgate::jwt::{
    auth_token, claims_for, decode, encode, encode_for, verify_claims, Claims, Secret, TokenError,
    DURATION,
};
use tollgate::resp::Res;

const NOW: u64 = 1_700_000_000;

const PAYLOAD: &str = "{\"name\":\"张三\",\"phone\":\"138 \\\"0\\\"\"}";

fn signed(secret: &str, claims: &[(&str, serde_json::Value)]) -> String {
    let mut map = serde_json::Map::new();
    for (name, value) in claims {
        map.insert(name.to_string(), value.clone());
    }
    jsonwebtoken::encode(
        &jsonwebtoken::Header::default(),
        &map,
        &jsonwebtoken::EncodingKey::from_secret(secret.as_bytes()),
    )
    .unwrap()
}

fn request(path: &str, authorization: Option<&str>) -> Request {
    let mut req = Request::new("GET", path);
    req.authorization = authorization.map(String::from);
    req
}

#[test]
fn a_token_gives_its_payload_back() {
    let secret = Secret::new("s3cret");
    let token = encode_for(&secret, PAYLOAD, NOW, 60).unwrap();
    assert_eq!(Ok(PAYLOAD.to_string()), decode(&secret, &token, NOW));
    assert_eq!(Ok(PAYLOAD.to_string()), decode(&secret, &token, NOW + 59));
    assert_eq!(Ok(PAYLOAD.to_string()), decode(&secret, &token, 0));
}

#[test]
fn a_token_is_good_through_the_second_of_its_expiry() {
    let secret = Secret::new("s3cret");
    let token = encode_for(&secret, PAYLOAD, NOW, 60).unwrap();
    assert_eq!(Ok(PAYLOAD.to_string()), decode(&secret, &token, NOW + 60));
    assert_eq!(Err(TokenError::Expired), decode(&secret, &token, NOW + 61));
    assert_eq!(Err(TokenError::Expired), decode(&secret, &token, u64::MAX));
}

#[test]
fn a_token_is_not_its_payload() {
    let secret = Secret::new("s3cret");
    let token = encode_for(&secret, PAYLOAD, NOW, 60).unwrap();
    assert_ne!(PAYLOAD, token);
    assert_eq!(3, token.split('.').count());
    assert_eq!(token, encode_for(&secret, PAYLOAD, NOW, 60).unwrap());
    assert_ne!(token, encode_for(&secret, PAYLOAD, NOW, 61).unwrap());
    assert_ne!(token, encode_for(&Secret::new("other"), PAYLOAD, NOW, 60).unwrap());
}

#[test]
fn a_token_lives_fifteen_days_unless_told() {
    assert_eq!(1_296_000, DURATION);
    let secret = Secret::new("s3cret");
    let token = encode(&secret, "p", NOW).unwrap();
    assert_eq!(token, encode_for(&secret, "p", NOW, 1_296_000).unwrap());
    assert_eq!(Ok("p".to_string()), decode(&secret, &token, NOW + 1_296_000));
    assert_eq!(Err(TokenError::Expired), decode(&secret, &token, NOW + 1_296_001));
}

#[test]
fn a_token_of_the_codec_itself_is_read() {
    let token = signed(
        "s3cret",
        &[("exp", serde_json::Value::from(NOW)), ("data", serde_json::Value::from("p"))],
    );
    let secret = Secret::new("s3cret");
    assert_eq!(token, encode_for(&secret, "p", NOW, 0).unwrap());
    assert_eq!(Ok("p".to_string()), decode(&secret, &token, NOW));
}

#[test]
fn an_expiry_that_does_not_fit_is_refused() {
    let secret = Secret::new("s3cret");
    assert_eq!(Err(TokenError::Lifetime), encode_for(&secret, "p", u64::MAX, 1));
    assert_eq!(Err(TokenError::Lifetime), encode(&secret, "p", u64::MAX - DURATION + 1));
    assert!(encode_for(&secret, "p", u64::MAX, 0).is_ok());
    assert_eq!(Ok(Claims { exp: 70, data: 'x' }), claims_for('x', 30, 40));
    assert_eq!(Err(TokenError::Lifetime), claims_for('x', u64::MAX, 1));
}

#[test]
fn a_token_under_another_secret_is_invalid() {
    let token = encode_for(&Secret::new("one"), "p", NOW, 60).unwrap();
    match decode(&Secret::new("two"), &token, NOW) {
        Err(TokenError::Invalid(detail)) => assert_eq!("InvalidSignature", detail),
        other => panic!("decoded to {other:?}"),
    }
}

#[test]
fn a_text_that_is_no_token_is_invalid() {
    let secret = Secret::new("s3cret");
    for text in ["", "abc", "a.b.c", "..", PAYLOAD] {
        assert!(matches!(decode(&secret, text, NOW), Err(TokenError::Invalid(_))), "{text}");
    }
}

#[test]
fn an_invalid_expired_token_is_invalid() {
    let token = encode_for(&Secret::new("one"), "p", NOW, 60).unwrap();
    assert!(matches!(
        decode(&Secret::new("two"), &token, NOW + 1000),
        Err(TokenError::Invalid(_))
    ));
}

#[test]
fn a_token_without_a_payload_is_refused() {
    let secret = Secret::new("s3cret");
    let token = signed("s3cret", &[("exp", serde_json::Value::from(NOW))]);
    assert_eq!(Err(TokenError::NoPayload), decode(&secret, &token, NOW));
    assert_eq!(Err(TokenError::Expired), decode(&secret, &token, NOW + 1));
    let token = signed(
        "s3cret",
        &[("exp", serde_json::Value::from(NOW)), ("data", serde_json::Value::from(5))],
    );
    assert_eq!(Err(TokenError::NoPayload), decode(&secret, &token, NOW));
}

#[test]
fn a_token_without_a_whole_expiry_is_refused() {
    let secret = Secret::new("s3cret");
    let token = signed(
        "s3cret",
        &[("exp", serde_json::Value::from(12.5)), ("data", serde_json::Value::from("p"))],
    );
    assert_eq!(Err(TokenError::NoExpiry), decode(&secret, &token, 0));
    let token = signed("s3cret", &[("data", serde_json::Value::from("p"))]);
    assert!(matches!(decode(&secret, &token, 0), Err(TokenError::Invalid(_))));
}

#[test]
fn claims_are_held_against_the_clock() {
    assert_eq!(Err(TokenError::NoExpiry), verify_claims(None, Some("p".to_string()), 5));
    assert_eq!(Err(TokenError::NoExpiry), verify_claims(None, None, 5));
    assert_eq!(Err(TokenError::Expired), verify_claims(Some(4), Some("p".to_string()), 5));
    assert_eq!(Err(TokenError::Expired), verify_claims(Some(4), None, 5));
    assert_eq!(Err(TokenError::NoPayload), verify_claims(Some(5), None, 5));
    assert_eq!(Ok("p".to_string()), verify_claims(Some(5), Some("p".to_string()), 5));
    assert_eq!(Ok("p".to_string()), verify_claims(Some(6), Some("p".to_string()), 5));
}

#[test]
fn errors_read_as_the_codec_words_them() {
    assert_eq!("ExpiredSignature", TokenError::Expired.to_text());
    assert_eq!("Missing required claim: exp", TokenError::NoExpiry.to_text());
    assert_eq!("Missing required claim: data", TokenError::NoPayload.to_text());
    assert_eq!("InvalidLifetime", TokenError::Lifetime.to_text());
    assert_eq!("why", TokenError::Invalid("why".to_string()).to_text());
}

#[test]
fn a_bearer_token_is_read_from_the_header() {
    let secret = Secret::new("s3cret");
    let token = encode_for(&secret, "p", NOW, 60).unwrap();
    for head in ["Bearer ", "bearer ", "BEARER ", "Bearer   ", "Bearer \t "] {
        let value = format!("{head}{token}");
        assert_eq!(Ok("p".to_string()), auth_token(&secret, Some(&value), NOW), "{value}");
    }
}

#[test]
fn a_request_without_a_bearer_token_is_unauthorized() {
    let secret = Secret::new("s3cret");
    let token = encode_for(&secret, "p", NOW, 60).unwrap();
    let none = Err(Res::msg(401, "身份认证失败: 请求未携带有效token"));
    assert_eq!(none, auth_token(&secret, None, NOW));
    for value in [
        String::new(),
        "Bearer".to_string(),
        token.clone(),
        format!("Basic {token}"),
        format!("Bearer\t{token}"),
        format!(" Bearer {token}"),
        format!("Bearer {token}é"),
        format!("Bearer {token}\n"),
        format!("Bearer {token}\u{7f}"),
    ] {
        assert_eq!(none, auth_token(&secret, Some(&value), NOW), "{value:?}");
    }
}

#[test]
fn a_bad_token_is_unauthorized_with_the_reason() {
    let secret = Secret::new("s3cret");
    let token = encode_for(&secret, "p", NOW, 60).unwrap();
    let value = format!("Bearer {token}");
    assert_eq!(
        Err(Res::msg(401, "身份认证失败: ExpiredSignature")),
        auth_token(&secret, Some(&value), NOW + 61)
    );
    assert_eq!(
        Err(Res::msg(401, "身份认证失败: InvalidSignature")),
        auth_token(&Secret::new("other"), Some(&value), NOW)
    );
    assert_eq!(
        Err(Res::msg(401, "身份认证失败: InvalidToken")),
        auth_token(&secret, Some("Bearer "), NOW)
    );
    assert_eq!(
        Err(Res::msg(401, "身份认证失败: InvalidToken")),
        auth_token(&secret, Some("Bearer x y"), NOW)
    );
}

#[test]
fn a_matched_path_passes_whatever_it_carries() {
    let secret = Secret::new("s3cret");
    let seen = Rc::new(RefCell::new(Vec::new()));
    let log = seen.clone();
    let handler = move |req: Request| -> Result<Response, String> {
        log.borrow_mut().push(req);
        Ok(Response::new(200))
    };
    let service = JwtAuth::new("/login").into_service(handler);
    for header in [None, Some("Bearer garbage"), Some("nonsense")] {
        let req = request("/login", header);
        let out = service.call(&secret, req.clone(), NOW).unwrap();
        assert_eq!(200, out.status);
        assert_eq!(Some(req), seen.borrow_mut().pop());
    }
    let token = encode_for(&secret, "p", NOW, 60).unwrap();
    let req = request("/login", Some(&format!("Bearer {token}")));
    service.call(&secret, req.clone(), NOW).unwrap();
    let reached = seen.borrow_mut().pop().unwrap();
    assert_eq!(None, reached.claims);
    assert_eq!(req, reached);
}

#[test]
fn a_good_token_passes_with_its_payload_attached() {
    let secret = Secret::new("s3cret");
    let seen = Rc::new(RefCell::new(Vec::new()));
    let log = seen.clone();
    let handler = move |req: Request| -> Result<Response, String> {
        log.borrow_mut().push(req);
        Ok(Response::new(204))
    };
    let service = JwtAuth::new("/login").layer(handler);
    let token = encode_for(&secret, PAYLOAD, NOW, 60).unwrap();
    let req = request("/info", Some(&format!("Bearer {token}")));
    let out = service.call(&secret, req.clone(), NOW + 60).unwrap();
    assert_eq!(204, out.status);
    let reached = seen.borrow_mut().pop().unwrap();
    assert_eq!(Some(PAYLOAD.to_string()), reached.claims);
    let mut expected = req;
    expected.claims = Some(PAYLOAD.to_string());
    assert_eq!(expected, reached);
}

#[test]
fn a_request_without_a_good_token_never_reaches_the_handler() {
    let secret = Secret::new("s3cret");
    let calls = Rc::new(RefCell::new(0));
    let count = calls.clone();
    let handler = move |_req: Request| -> Result<Response, String> {
        *count.borrow_mut() += 1;
        Ok(Response::new(200))
    };
    let service = JwtAuth::new("/login").into_service(handler);
    let out = service.call(&secret, request("/info", None), NOW).unwrap();
    assert_eq!(Res::msg(401, "身份认证失败: 请求未携带有效token").into_response(), out);
    let token = encode_for(&secret, "p", NOW, 60).unwrap();
    let header = format!("Bearer {token}");
    let out = service.call(&secret, request("/info", Some(&header)), NOW + 61).unwrap();
    assert_eq!(Res::msg(401, "身份认证失败: ExpiredSignature").into_response(), out);
    assert_eq!(401, out.status);
    let out = service.call(&Secret::new("other"), request("/info", Some(&header)), NOW).unwrap();
    assert_eq!(Res::msg(401, "身份认证失败: InvalidSignature").into_response(), out);
    let out = service.call(&secret, request("/user/login", None), NOW).unwrap();
    assert_eq!(401, out.status);
    let out = service.call(&secret, request("/admin/login/export", Some("Bearer x")), NOW).unwrap();
    assert_eq!(Res::msg(401, "身份认证失败: InvalidToken").into_response(), out);
    assert_eq!(0, *calls.borrow());
}

#[test]
fn the_first_half_of_the_guard_says_how_to_go_on() {
    let secret = Secret::new("s3cret");
    let service = JwtAuth::new(|path: &str| path == "/open").into_service(());
    let mut req = request("/open", None);
    assert!(matches!(service.enter(&secret, &mut req, NOW), Step::Forward(Passage::Bypassed)));
    assert_eq!(request("/open", None), req);
    let mut req = request("/shut", None);
    assert!(matches!(service.enter(&secret, &mut req, NOW), Step::Reply(_)));
    assert_eq!(request("/shut", None), req);
    let token = encode_for(&secret, "p", NOW, 60).unwrap();
    let mut req = request("/shut", Some(&format!("Bearer {token}")));
    assert!(matches!(service.enter(&secret, &mut req, NOW), Step::Forward(Passage::Verified)));
    assert_eq!(Some("p".to_string()), req.claims);
}

#[test]
fn the_guard_decides_on_the_answer_of_its_rule() {
    let secret = Secret::new("s3cret");
    let mut req = request("/x", Some("Bearer garbage"));
    assert!(matches!(guard(true, &secret, &mut req, NOW), Step::Forward(Passage::Bypassed)));
    assert_eq!(request("/x", Some("Bearer garbage")), req);
    match guard(false, &secret, &mut req, NOW) {
        Step::Reply(out) => assert_eq!(401, out.status),
        Step::Forward(_) => panic!("a bad token passed"),
    }
    assert_eq!(request("/x", Some("Bearer garbage")), req);
}

#[test]
fn attached_claims_are_taken_from_the_request() {
    let secret = Secret::new("s3cret");
    let mut req = request("/info", Some("Bearer garbage"));
    req.claims = Some("p".to_string());
    let jwt = Jwt::from_request_parts(&secret, &mut req, NOW).unwrap();
    assert_eq!("p", jwt.0);
    assert_eq!(request("/info", Some("Bearer garbage")), req);
}

#[test]
fn claims_are_read_from_the_header_where_none_are_attached() {
    let secret = Secret::new("s3cret");
    let token = encode_for(&secret, "p", NOW, 60).unwrap();
    let header = format!("Bearer {token}");
    let mut req = request("/info", Some(&header));
    let jwt = Jwt::from_request_parts(&secret, &mut req, NOW).unwrap();
    assert_eq!("p", jwt.0);
    assert_eq!(request("/info", Some(&header)), req);
    let res = Jwt::from_request_parts(&secret, &mut req, NOW + 61).unwrap_err();
    assert_eq!(Res::msg(401, "身份认证失败: ExpiredSignature"), res);
    let res = Jwt::from_request_parts(&secret, &mut request("/info", None), NOW).unwrap_err();
    assert_eq!(Res::msg(401, "身份认证失败: 请求未携带有效token"), res);
}

#[test]
fn the_default_guard_asks_every_request_for_its_token() {
    assert!(!Nothing.compare(""));
    assert!(!Nothing.compare("/login"));
    let secret = Secret::new("s3cret");
    let service = JwtAuth::default().into_service(());
    for path in ["", "/", "/login"] {
        let mut req = request(path, None);
        assert!(matches!(service.enter(&secret, &mut req, NOW), Step::Reply(_)), "{path}");
    }
    let token = encode_for(&secret, "p", NOW, 60).unwrap();
    let mut req = request("/", Some(&format!("Bearer {token}")));
    assert!(matches!(service.enter(&secret, &mut req, NOW), Step::Forward(Passage::Verified)));
}

/// The token that a header value holds, worked out by hand.
fn token_by_hand(value: &str) -> Option<String> {
    let chars: Vec<char> = value.chars().collect();
    let text = chars.iter().all(|c| (' '..='~').contains(c) || *c == '\t');
    let scheme: String = chars.iter().take(6).map(|c| c.to_ascii_lowercase()).collect();
    if text && chars.len() > 6 && chars[6] == ' ' && scheme == "bearer" {
        let rest: String = chars[7..].iter().collect();
        Some(rest.trim_start_matches([' ', '\t']).to_string())
    } else {
        None
    }
}

#[test]
fn header_values_of_every_shape_are_read_alike() {
    let secret = Secret::new("s3cret");
    let token = encode_for(&secret, "p", NOW, 60).unwrap();
    let parts = [
        "Bearer", "bearer", "BEARER", "Bearer ", "Beare", "r", " ", "  ", "\t", "\n", "é", "\u{7f}",
        "~", "!", ".", "x", &token,
    ];
    let mut seed: u64 = 7;
    for _ in 0..4000 {
        let mut value = String::new();
        seed = seed.wrapping_mul(6364136223846793005).wrapping_add(1442695040888963407);
        let count = (seed >> 60) % 5;
        for _ in 0..count {
            seed = seed.wrapping_mul(6364136223846793005).wrapping_add(1442695040888963407);
            value.push_str(parts[((seed >> 33) % parts.len() as u64) as usize]);
        }
        let expected = match token_by_hand(&value) {
            None => Err(Res::msg(401, "身份认证失败: 请求未携带有效token")),
            Some(found) => decode(&secret, &found, NOW)
                .map_err(|err| Res::msg(401, &format!("身份认证失败: {}", err.to_text()))),
        };
        assert_eq!(expected, auth_token(&secret, Some(&value), NOW), "{value:?}");
    }
}

#[test]
fn a_failing_handler_behind_the_guard_has_its_error_handed_on() {
    let secret = Secret::new("s3cret");
    let handler = |req: Request| -> Result<Response, String> { Err(format!("down at {}", req.path)) };
    let service = JwtAuth::new("/login").into_service(handler);
    assert_eq!(Err("down at /login".to_string()), service.call(&secret, request("/login", None), NOW));
    let token = encode_for(&secret, "p", NOW, 60).unwrap();
    let req = request("/info", Some(&format!("Bearer {token}")));
    assert_eq!(Err("down at /info".to_string()), service.call(&secret, req, NOW));
    let out = service.call(&secret, request("/info", None), NOW).unwrap();
    assert_eq!(401, out.status);
}

#[test]
fn the_words_of_the_codec_stand_in_the_error() {
    let secret = Secret::new("s3cret");
    let token = encode_for(&Secret::new("one"), "p", NOW, 60).unwrap();
    assert_eq!(Err(TokenError::Invalid("InvalidSignature".to_string())), decode(&secret, &token, NOW));
    assert_eq!(Err(TokenError::Invalid("InvalidToken".to_string())), decode(&secret, "abc", NOW));
    let missing = signed("s3cret", &[("data", serde_json::Value::from("p"))]);
    assert_eq!(
        Err(TokenError::Invalid("Missing required claim: exp".to_string())),
        decode(&secret, &missing, NOW)
    );
}
