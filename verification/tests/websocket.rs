use uhttp::headers::HeaderMap;
use uhttp::plan::PlanBody;
use uhttp::request::{Method, Request, Uri, Version};
use uhttp::websocket::{derive_accept_key, next_text, upgrade_plan, Received};
use uhttp::Error;

#[test]
fn accept_key_of_the_protocol_example() {
    assert_eq!(derive_accept_key(b"dGhlIHNhbXBsZSBub25jZQ=="), "s3pPLMBiTxaQ9kYGzzhZRbK+xOo=");
}

#[test]
fn accept_key_is_always_28_characters() {
    for key in [&b""[..], b"x", b"another key of some length"] {
        assert_eq!(derive_accept_key(key).len(), 28);
    }
    assert_ne!(derive_accept_key(b"a"), derive_accept_key(b"b"));
}

#[test]
fn upgrade_answer_switches_protocols() {
    let mut h = HeaderMap::new();
    h.append("Sec-WebSocket-Key", b"dGhlIHNhbXBsZSBub25jZQ==");
    let req = Request::new((), h, Method::Get, Version::Http11, Uri::new("/ws".to_string(), None));
    let p = upgrade_plan(&req);
    assert_eq!(p.status, 101);
    let fields: Vec<(&str, &str)> = p.headers.iter().map(|(n, v)| (n.as_str(), v.as_str())).collect();
    assert_eq!(
        fields,
        vec![
            ("Upgrade", "websocket"),
            ("Connection", "upgrade"),
            ("Sec-WebSocket-Accept", "s3pPLMBiTxaQ9kYGzzhZRbK+xOo="),
        ]
    );
    assert!(matches!(p.body, PlanBody::Empty));
}

#[test]
fn next_text_accepts_only_text() {
    assert_eq!(next_text(Received::Text("hi".to_string())).unwrap().unwrap(), "hi");
    assert!(next_text(Received::Closed).is_none());
    for r in [Received::Other, Received::Failed] {
        match next_text(r) {
            Some(Err(Error::Generic(m))) => assert_eq!(m, "Expected websocket message as text"),
            _ => panic!("a non-text message is an error"),
        }
    }
}

#[test]
fn accept_key_is_base64_of_the_sha1_digest() {
    for key in [&b"x"[..], b"abc", b"dGhlIHNhbXBsZSBub25jZQ=="] {
        let mut h = <sha1::Sha1 as sha1::Digest>::new();
        sha1::Digest::update(&mut h, key);
        sha1::Digest::update(&mut h, b"258EAFA5-E914-47DA-95CA-C5AB0DC85B11");
        let expected = base64::Engine::encode(&base64::engine::general_purpose::STANDARD, sha1::Digest::finalize(h));
        assert_eq!(derive_accept_key(key), expected);
    }
}

#[test]
fn upgrade_needs_an_unwritten_response_and_an_upgradable_connection() {
    let mut r: uhttp::response::Response<&str, ()> = uhttp::response::Response::new("parts");
    match uhttp::websocket::start_upgrade(&mut r, false) {
        Err(Error::Generic(m)) => assert_eq!(m, "Not upgradable"),
        _ => panic!("no upgrade offered"),
    }
    let mut r: uhttp::response::Response<&str, ()> = uhttp::response::Response::new("parts");
    r.write_head(200).unwrap();
    match uhttp::websocket::start_upgrade(&mut r, true) {
        Err(Error::Generic(m)) => assert_eq!(m, "Cannot upgrade"),
        _ => panic!("head written"),
    }
    let mut r: uhttp::response::Response<&str, ()> = uhttp::response::Response::new("parts");
    assert_eq!(uhttp::websocket::start_upgrade(&mut r, true).ok(), Some("parts"));
}
