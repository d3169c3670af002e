use psv::server::api::{filter_next, route_api_request, ApiRoute, FilterAction, FilterEvent, Generate};
use psv::server::config::{Config, ThrottleConfig};
use psv::server::throttle::Rate;
use psv::server::{authentication_answer, check_signature, filter_cors_preflight, is_authentic, Preflight, StatusCode};
use psv::util::{dump_bytes, read_bytes};

const KEY: &str = "key";
const BODY: &[u8] = b"The quick brown fox jumps over the lazy dog";
// HMAC-SHA256("key", BODY)
const TAG_HEX: &str = "f7bc83f430538424b13298e6aa6fb143ef4d59a14946175997479dbc2d1a3cd8";

fn config(token: Option<&str>, cors: Option<&str>) -> Config {
    Config {
        port_https: 443,
        port_http: 80,
        cert_path: "cert.pem".to_string(),
        key_path: "key.pem".to_string(),
        domain: "example.com".to_string(),
        throttle: ThrottleConfig {
            max_requests_per_second: Rate { requests: 64, seconds: 1 },
            timeout_millis: 5000,
            clear_period_seconds: 3600,
        },
        api_token: token.map(|t| t.to_string()),
        cache_period_seconds: 3600,
        cors_allow_address: cors.map(|c| c.to_string()),
    }
}

#[test]
fn unsigned_request_is_unauthorized() {
    assert_eq!(is_authentic(None, KEY, BODY), Some(StatusCode::UNAUTHORIZED));
}

#[test]
fn non_utf8_signature_is_bad_request() {
    let sig: &[u8] = &[0xff, 0xfe, 0x41];
    assert_eq!(is_authentic(Some(sig), KEY, BODY), Some(StatusCode::BAD_REQUEST));
}

#[test]
fn signed_request_is_accepted() {
    let header = format!("sha256={}", TAG_HEX);
    assert_eq!(is_authentic(Some(header.as_bytes()), KEY, BODY), Some(StatusCode::ACCEPTED));
    // upper case digits and no prefix are accepted too
    let upper = TAG_HEX.to_uppercase();
    assert_eq!(is_authentic(Some(upper.as_bytes()), KEY, BODY), Some(StatusCode::ACCEPTED));
}

#[test]
fn wrong_signature_is_unauthorized() {
    let mut wrong = String::from("sha256=");
    wrong.push_str(&TAG_HEX[..62]);
    wrong.push_str("00");
    assert_eq!(is_authentic(Some(wrong.as_bytes()), KEY, BODY), Some(StatusCode::UNAUTHORIZED));
    // the right digest under another key
    let header = format!("sha256={}", TAG_HEX);
    assert_eq!(is_authentic(Some(header.as_bytes()), "other", BODY), Some(StatusCode::UNAUTHORIZED));
    // the right digest for another body
    assert_eq!(is_authentic(Some(header.as_bytes()), KEY, b"another body"), Some(StatusCode::UNAUTHORIZED));
}

#[test]
fn malformed_digest_cannot_be_checked() {
    assert_eq!(is_authentic(Some(b"sha256=abc"), KEY, BODY), None);
    assert_eq!(is_authentic(Some(b"sha256=zz"), KEY, BODY), None);
    assert_eq!(is_authentic(Some(b"sha256=abcd"), KEY, BODY), None);
}

#[test]
fn check_signature_compares_bytes() {
    let tag = read_bytes(TAG_HEX).unwrap();
    assert_eq!(check_signature(&TAG_HEX.to_uppercase(), &tag), StatusCode::ACCEPTED);
    assert_eq!(check_signature(&dump_bytes(&tag), &tag), StatusCode::ACCEPTED);
    let mut other = tag.clone();
    other[0] ^= 1;
    assert_eq!(check_signature(&dump_bytes(&other), &tag), StatusCode::UNAUTHORIZED);
}

#[test]
fn generate_authentication_follows_configuration() {
    let header = format!("sha256={}", TAG_HEX);
    assert_eq!(Generate::is_authentic(None, None, BODY), Some(StatusCode::INTERNAL_SERVER_ERROR));
    let open = config(None, None);
    assert_eq!(Generate::is_authentic(Some(&open), None, BODY), Some(StatusCode::ACCEPTED));
    let guarded = config(Some(KEY), None);
    assert_eq!(Generate::is_authentic(Some(&guarded), None, BODY), Some(StatusCode::UNAUTHORIZED));
    assert_eq!(Generate::is_authentic(Some(&guarded), Some(header.as_bytes()), BODY), Some(StatusCode::ACCEPTED));
}

#[test]
fn api_requests_are_routed_by_header() {
    assert_eq!(route_api_request(None, false), ApiRoute::PassThrough);
    assert_eq!(route_api_request(Some(b"Generate"), false), ApiRoute::Fail(StatusCode::INTERNAL_SERVER_ERROR));
    assert_eq!(route_api_request(Some(b"Generate"), true), ApiRoute::Generate);
    assert_eq!(route_api_request(Some(b"generate"), true), ApiRoute::PassThrough);
    assert_eq!(route_api_request(Some(&[0xc3, 0x28]), true), ApiRoute::PassThrough);
}

#[test]
fn cors_preflight_answers() {
    assert!(matches!(filter_cors_preflight(false, None), Preflight::PassThrough));
    assert!(matches!(filter_cors_preflight(true, None), Preflight::Respond(StatusCode::INTERNAL_SERVER_ERROR)));
    let closed = config(None, None);
    assert!(matches!(filter_cors_preflight(true, Some(&closed)), Preflight::Respond(StatusCode::FORBIDDEN)));
    let open = config(None, Some("https://example.org"));
    match filter_cors_preflight(true, Some(&open)) {
        Preflight::Allow(headers) => {
            assert_eq!(
                headers,
                vec![
                    ("Access-Control-Allow-Origin".to_string(), "https://example.org".to_string()),
                    ("Access-Control-Allow-Methods".to_string(), "POST".to_string()),
                    ("Access-Control-Allow-Headers".to_string(), "api, content-type".to_string()),
                ]
            );
        }
        other => panic!("unexpected {:?}", other),
    }
}

#[test]
fn status_codes_have_http_numbers() {
    assert_eq!(StatusCode::OK.as_u16(), 200);
    assert_eq!(StatusCode::ACCEPTED.as_u16(), 202);
    assert_eq!(StatusCode::BAD_REQUEST.as_u16(), 400);
    assert_eq!(StatusCode::UNAUTHORIZED.as_u16(), 401);
    assert_eq!(StatusCode::FORBIDDEN.as_u16(), 403);
    assert_eq!(StatusCode::TOO_MANY_REQUESTS.as_u16(), 429);
    assert_eq!(StatusCode::INTERNAL_SERVER_ERROR.as_u16(), 500);
}

fn tag(key: &[u8], body: &[u8]) -> Vec<u8> {
    let key = openssl::pkey::PKey::hmac(key).unwrap();
    let mut signer = openssl::sign::Signer::new(openssl::hash::MessageDigest::sha256(), &key).unwrap();
    signer.update(body).unwrap();
    signer.sign_to_vec().unwrap()
}

#[test]
fn digest_is_read_in_upper_case() {
    // find a body whose tag has a byte 0xff, and write that byte as the
    // ligature "\u{fb00}", which upper-cases to "FF"
    let mut found = false;
    for i in 0..1000 {
        let body = format!("body {}", i);
        let t = tag(KEY.as_bytes(), body.as_bytes());
        if let Some(pos) = t.iter().position(|b| *b == 0xff) {
            let hex = dump_bytes(&t).to_lowercase();
            let header = format!("sha256={}\u{fb00}{}", &hex[..2 * pos], &hex[2 * pos + 2..]);
            assert_eq!(is_authentic(Some(header.as_bytes()), KEY, body.as_bytes()), Some(StatusCode::ACCEPTED));
            found = true;
            break;
        }
    }
    assert!(found);
}

#[test]
fn dumped_tag_is_accepted() {
    let body = b"{\"app\": {}}";
    let header = format!("sha256={}", dump_bytes(&tag(KEY.as_bytes(), body)));
    assert_eq!(is_authentic(Some(header.as_bytes()), KEY, body), Some(StatusCode::ACCEPTED));
    assert_eq!(dump_bytes(&tag(KEY.as_bytes(), BODY)), TAG_HEX.to_uppercase());
}

#[test]
fn answers_to_digests_and_tags() {
    let tag: &[u8] = &[0xab, 0x01];
    // no tag: OpenSSL failed
    assert_eq!(authentication_answer("AB01", None), Some(StatusCode::INTERNAL_SERVER_ERROR));
    // the digest denotes the tag
    assert_eq!(authentication_answer("AB01", Some(tag)), Some(StatusCode::ACCEPTED));
    assert_eq!(authentication_answer("ab01", Some(tag)), Some(StatusCode::ACCEPTED));
    // other bytes of the tag's length
    assert_eq!(authentication_answer("AB02", Some(tag)), Some(StatusCode::UNAUTHORIZED));
    // no hexadecimal text of the tag's length
    assert_eq!(authentication_answer("AB", Some(tag)), None);
    assert_eq!(authentication_answer("AB0Z", Some(tag)), None);
    assert_eq!(authentication_answer("AB0", Some(tag)), None);
}

#[test]
fn filter_steps_follow_in_order() {
    assert_eq!(filter_next(&FilterEvent::Routed(ApiRoute::PassThrough)), FilterAction::PassThrough);
    assert_eq!(
        filter_next(&FilterEvent::Routed(ApiRoute::Fail(StatusCode::INTERNAL_SERVER_ERROR))),
        FilterAction::Fail(StatusCode::INTERNAL_SERVER_ERROR)
    );
    assert_eq!(filter_next(&FilterEvent::Routed(ApiRoute::Generate)), FilterAction::ReadBody);
    assert_eq!(filter_next(&FilterEvent::BodyRead(false)), FilterAction::Fail(StatusCode::BAD_REQUEST));
    assert_eq!(filter_next(&FilterEvent::BodyRead(true)), FilterAction::Authenticate);
    assert_eq!(filter_next(&FilterEvent::Authenticated(StatusCode::UNAUTHORIZED)), FilterAction::Answer(StatusCode::UNAUTHORIZED));
    assert_eq!(filter_next(&FilterEvent::Authenticated(StatusCode::ACCEPTED)), FilterAction::ReadPayload);
    assert_eq!(filter_next(&FilterEvent::PayloadRead(StatusCode::BAD_REQUEST)), FilterAction::Answer(StatusCode::BAD_REQUEST));
    assert_eq!(filter_next(&FilterEvent::PayloadRead(StatusCode::OK)), FilterAction::Respond);
    assert_eq!(filter_next(&FilterEvent::Responded(true, StatusCode::OK)), FilterAction::SendPage);
    assert_eq!(
        filter_next(&FilterEvent::Responded(false, StatusCode::INTERNAL_SERVER_ERROR)),
        FilterAction::Fail(StatusCode::INTERNAL_SERVER_ERROR)
    );
}

#[test]
fn prefix_and_case_do_not_matter() {
    let lower = TAG_HEX.to_lowercase();
    let upper = TAG_HEX.to_uppercase();
    for header in [
        lower.clone(),
        upper.clone(),
        format!("sha256={}", lower),
        format!("sha256={}", upper),
    ] {
        assert_eq!(is_authentic(Some(header.as_bytes()), KEY, BODY), Some(StatusCode::ACCEPTED));
    }
}

#[test]
fn unsigned_or_unreadable_requests_need_no_key() {
    // without a readable signature the key plays no part
    let long = "k".repeat(16);
    assert_eq!(is_authentic(None, &long, BODY), Some(StatusCode::UNAUTHORIZED));
    assert_eq!(is_authentic(Some(&[0xff, 0xfe]), &long, BODY), Some(StatusCode::BAD_REQUEST));
    let guarded = config(Some(&long), None);
    assert_eq!(Generate::is_authentic(Some(&guarded), None, BODY), Some(StatusCode::UNAUTHORIZED));
    assert_eq!(Generate::is_authentic(Some(&guarded), Some(&[0xff]), BODY), Some(StatusCode::BAD_REQUEST));
    // a digest of the tag's 32 bytes always gets an answer
    let zeros = "00".repeat(32);
    assert_eq!(is_authentic(Some(zeros.as_bytes()), KEY, BODY), Some(StatusCode::UNAUTHORIZED));
}
