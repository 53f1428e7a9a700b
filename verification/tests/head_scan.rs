use uhttp::head_scan::HeadScanner;

fn scan(input: &[u8]) -> (Option<usize>, HeadScanner) {
    let mut s = HeadScanner::new();
    for (i, b) in input.iter().enumerate() {
        if s.feed(*b) {
            return (Some(i), s);
        }
    }
    (None, s)
}

#[test]
fn head_ends_at_the_blank_line() {
    let input = b"GET / HTTP/1.1\r\nHost: a\r\n\r\nbody";
    let (end, s) = scan(input);
    assert_eq!(end, Some(26));
    assert_eq!(s.lines(), 2);
    assert_eq!(s.head(), &b"GET / HTTP/1.1\r\nHost: a\r\n\r"[..]);
}

#[test]
fn head_without_blank_line_is_not_complete() {
    let (end, s) = scan(b"GET / HTTP/1.1\r\nHost: a\r\n");
    assert_eq!(end, None);
    assert_eq!(s.lines(), 2);
    assert_eq!(s.head().len(), 25);
}

#[test]
fn a_second_carriage_return_starts_over() {
    let (end, s) = scan(b"\r\r\n\r\n\r\n");
    assert_eq!(end, Some(6));
    assert_eq!(s.lines(), 1);
    let (end, _) = scan(b"a\r\nb\r\nc");
    assert_eq!(end, None);
}
