use uhttp::hex::{hex16_string, hex_string};
use uhttp::text::{all_visible_ascii_exec, bytes_equal, chars_of, contains_bytes, str_equal, to_lower_bytes};

#[test]
fn hex_string_of_zero_is_one_digit() {
    assert_eq!(hex_string(0), "0");
}

#[test]
fn hex_string_agrees_with_lower_hex_format() {
    for n in [1u128, 9, 10, 15, 16, 255, 256, 4096, 1_700_000_000_123_456_789, u128::MAX] {
        assert_eq!(hex_string(n), format!("{:x}", n));
    }
}

#[test]
fn hex16_string_pads_to_sixteen_digits() {
    assert_eq!(hex16_string(0), "0000000000000000");
    assert_eq!(hex16_string(255), "00000000000000ff");
    assert_eq!(hex16_string(u64::MAX), "ffffffffffffffff");
    assert_eq!(hex16_string(0x0123_4567_89ab_cdef), "0123456789abcdef");
}

#[test]
fn lower_bytes_changes_only_ascii_capitals() {
    assert_eq!(to_lower_bytes(b"Content-Type"), b"content-type".to_vec());
    assert_eq!(to_lower_bytes(b"X-ABC_[@]\xC3\x89"), b"x-abc_[@]\xC3\x89".to_vec());
    assert_eq!(to_lower_bytes(b""), Vec::<u8>::new());
}

#[test]
fn bytes_equal_compares_contents() {
    assert!(bytes_equal(b"abc", b"abc"));
    assert!(!bytes_equal(b"abc", b"abd"));
    assert!(!bytes_equal(b"abc", b"ab"));
    assert!(bytes_equal(b"", b""));
}

#[test]
fn contains_bytes_finds_substrings() {
    assert!(contains_bytes(b"gzip, deflate, br", b"br"));
    assert!(contains_bytes(b"gzip", b"gz"));
    assert!(!contains_bytes(b"deflate", b"gz"));
    assert!(!contains_bytes(b"b", b"br"));
    assert!(contains_bytes(b"anything", b""));
    assert!(contains_bytes(b"", b""));
}

#[test]
fn visible_ascii_accepts_tab_and_rejects_controls() {
    assert!(all_visible_ascii_exec(b"gzip, deflate\tbr ~"));
    assert!(!all_visible_ascii_exec(b"a\nb"));
    assert!(!all_visible_ascii_exec(b"caf\xC3\xA9"));
    assert!(!all_visible_ascii_exec(b"\x7f"));
    assert!(all_visible_ascii_exec(b""));
}

#[test]
fn str_equal_and_chars_of() {
    assert!(str_equal("id", "id"));
    assert!(!str_equal("id", "Id"));
    assert_eq!(chars_of("héllo"), vec!['h', 'é', 'l', 'l', 'o']);
}
