use uhttp::head_scan::HeadScanner;
use uhttp::sync_request::{parse_length, parse_request, BoundedBody};
use uhttp::Error;

fn head_of(input: &[u8]) -> (Vec<u8>, usize) {
    let mut s = HeadScanner::new();
    for b in input {
        if s.feed(*b) {
            return (s.head().to_vec(), s.lines());
        }
    }
    panic!("no blank line");
}

#[test]
fn request_is_built_from_the_head() {
    let (head, lines) = head_of(b"POST /a?b=1 HTTP/1.1\r\nHost: example.com\r\nContent-Length: 5\r\nX-Name: Value\r\n\r\nhello");
    assert_eq!(lines, 4);
    let r = parse_request(&head, lines).unwrap();
    assert_eq!(r.method, "POST");
    assert_eq!(r.url, "/a?b=1");
    assert_eq!(r.proto, "HTTP/1.1");
    assert_eq!(r.host, b"example.com".to_vec());
    assert_eq!(r.content_length, 5);
    assert_eq!(
        r.headers,
        vec![
            (b"host".to_vec(), b"example.com".to_vec()),
            (b"content-length".to_vec(), b"5".to_vec()),
            (b"x-name".to_vec(), b"Value".to_vec()),
        ]
    );
}

#[test]
fn missing_length_is_zero_and_last_length_counts() {
    let (head, lines) = head_of(b"GET / HTTP/1.0\r\nHost: h\r\n\r\n");
    let r = parse_request(&head, lines).unwrap();
    assert_eq!(r.proto, "HTTP/1.0");
    assert_eq!(r.content_length, 0);
    let (head, lines) = head_of(b"GET / HTTP/1.1\r\nHost: h\r\ncontent-length: 3\r\nCONTENT-LENGTH: +12\r\n\r\n");
    assert_eq!(parse_request(&head, lines).unwrap().content_length, 12);
}

#[test]
fn bad_length_or_head_is_an_error() {
    let (head, lines) = head_of(b"GET / HTTP/1.1\r\nHost: h\r\nContent-Length: 1x\r\n\r\n");
    match parse_request(&head, lines) {
        Err(Error::Generic(m)) => assert_eq!(m, "Invalid Content-Length"),
        _ => panic!("the length does not parse"),
    }
    let (head, lines) = head_of(b"GET / HTTP/9.9\r\nHost: h\r\n\r\n");
    match parse_request(&head, lines) {
        Err(Error::IO(e)) => assert_eq!(e.kind(), std::io::ErrorKind::Other),
        _ => panic!("the version does not parse"),
    }
}

#[test]
fn lengths_parse_as_usize_does() {
    assert_eq!(parse_length(b"0"), Some(0));
    assert_eq!(parse_length(b"+42"), Some(42));
    assert_eq!(parse_length(b"18446744073709551615"), Some(usize::MAX));
    assert_eq!(parse_length(b"18446744073709551616"), None);
    assert_eq!(parse_length(b""), None);
    assert_eq!(parse_length(b"+"), None);
    assert_eq!(parse_length(b"-1"), None);
    assert_eq!(parse_length(b" 1"), None);
    for s in ["7", "123", "+9", "x", "1 "] {
        assert_eq!(parse_length(s.as_bytes()), s.parse::<usize>().ok());
    }
}

#[test]
fn body_reads_stop_at_its_length() {
    let mut b = BoundedBody::new(5);
    assert_eq!(b.room(3), 3);
    b.advance(3);
    assert_eq!(b.room(10), 2);
    b.advance(2);
    assert_eq!(b.room(10), 0);
}
