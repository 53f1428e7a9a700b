use uhttp::headers::HeaderMap;
use uhttp::plan::PlanBody;
use uhttp::request::{Method, Request, Uri, Version};
use uhttp::server::{body_mode, error_plan, first_private_key, log_line, tls_paths, BodyMode, Http2ServerOptions, PemKind};
use uhttp::Error;

fn headers(fields: &[(&str, &[u8])]) -> HeaderMap {
    let mut h = HeaderMap::new();
    for (n, v) in fields {
        h.append(n, v);
    }
    h
}

#[test]
fn event_streams_and_chunked_bodies_stream() {
    assert_eq!(body_mode(&headers(&[("Content-Type", b"text/event-stream")]), false), BodyMode::Stream);
    assert_eq!(body_mode(&headers(&[("content-transfer-encoding", b"chunked")]), true), BodyMode::Stream);
    assert_eq!(body_mode(&headers(&[("Content-Type", b"text/html")]), true), BodyMode::Chunked);
    assert_eq!(body_mode(&headers(&[]), false), BodyMode::Full);
    assert_eq!(body_mode(&headers(&[("Content-Type", b"text/event-stream; x")]), false), BodyMode::Full);
}

#[test]
fn failed_handler_is_answered_500_with_its_text() {
    let p = error_plan("Generic(\"boom\")");
    assert_eq!(p.status, 500);
    assert!(p.headers.is_empty());
    match p.body {
        PlanBody::Bytes(b) => assert_eq!(b, b"Generic(\"boom\")".to_vec()),
        _ => panic!("the error text is the body"),
    }
}

#[test]
fn log_line_shows_method_path_and_query() {
    let req = Request::new((), HeaderMap::new(), Method::Get, Version::Http11, Uri::new("/a".to_string(), Some("b=1".to_string())));
    assert_eq!(log_line(&req), "[GET] /a?b=1");
    let req = Request::new((), HeaderMap::new(), Method::Delete, Version::Http11, Uri::new("/x".to_string(), None));
    assert_eq!(log_line(&req), "[DELETE] /x");
    let req = Request::new((), HeaderMap::new(), Method::Connect, Version::Http11, Uri::new(String::new(), None));
    assert_eq!(log_line(&req), "[CONNECT] ");
}

#[test]
fn tls_paths_require_certificate_then_key() {
    let none = Http2ServerOptions::default();
    match tls_paths(&none) {
        Err(Error::Generic(m)) => assert_eq!(m, "TLS certificate path is required for HTTP/2 server"),
        _ => panic!("missing certificate"),
    }
    let cert_only = Http2ServerOptions { cert_path: Some("c.pem".to_string()), key_path: None };
    match tls_paths(&cert_only) {
        Err(Error::Generic(m)) => assert_eq!(m, "TLS key path is required for HTTP/2 server"),
        _ => panic!("missing key"),
    }
    let both = Http2ServerOptions { cert_path: Some("c.pem".to_string()), key_path: Some("k.pem".to_string()) };
    assert_eq!(tls_paths(&both).unwrap(), ("c.pem".to_string(), "k.pem".to_string()));
}

#[test]
fn first_private_key_skips_other_sections() {
    assert_eq!(first_private_key(&[PemKind::Other, PemKind::Unparsable, PemKind::Sec1Key, PemKind::Pkcs8Key]).unwrap(), 2);
    assert_eq!(first_private_key(&[PemKind::Pkcs1Key]).unwrap(), 0);
    match first_private_key(&[PemKind::Other]) {
        Err(Error::Generic(m)) => assert_eq!(m, "No valid private key (PKCS1, PKCS8, or SEC1) found in file"),
        _ => panic!("no key"),
    }
    assert!(first_private_key(&[]).is_err());
}
