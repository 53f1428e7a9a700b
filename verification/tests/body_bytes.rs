use uhttp::body::utf8;
use uhttp::body_reader::BodyReader;
use uhttp::bytes::Bytes;
use uhttp::Error;

#[test]
fn reads_take_what_fits_and_keep_the_rest() {
    let mut r = BodyReader::new("source");
    assert_eq!(r.read(4), None);
    r.set_chunk(b"abcdef".to_vec());
    assert_eq!(r.read(4), Some(b"abcd".to_vec()));
    assert_eq!(r.read(10), Some(b"ef".to_vec()));
    assert_eq!(r.read(10), None);
    assert_eq!(r.read(10), None);
    assert_eq!(*r.body_mut(), "source");
}

#[test]
fn read_into_no_room_takes_nothing() {
    let mut r = BodyReader::new(());
    r.set_chunk(b"xy".to_vec());
    assert_eq!(r.read(0), Some(Vec::new()));
    assert_eq!(r.read(1), Some(b"x".to_vec()));
    r.set_chunk(Vec::new());
    assert_eq!(r.read(5), None);
}

#[test]
fn bytes_keep_their_contents() {
    assert_eq!(Bytes::from(vec![1u8, 2, 3]).into_vec(), vec![1, 2, 3]);
    assert_eq!(Bytes::from_slice(b"ab").as_slice(), b"ab");
    assert_eq!(Bytes::from_text("é").into_vec(), vec![0xC3, 0xA9]);
    assert_eq!(Bytes::from_string("xyz".to_string()).as_slice(), b"xyz");
}

#[test]
fn body_text_must_be_utf8() {
    assert_eq!(utf8("héllo".as_bytes().to_vec()).unwrap(), "héllo");
    assert_eq!(utf8(Vec::new()).unwrap(), "");
    let e = utf8(vec![b'a', 0xff]).unwrap_err();
    assert_eq!(e.kind(), std::io::ErrorKind::Other);
    assert!(e.to_string().contains("invalid utf-8"));
}

#[test]
fn errors_carry_their_message() {
    match Error::generic("bad") {
        Error::Generic(m) => assert_eq!(m, "bad"),
        _ => panic!("generic"),
    }
    match Error::generic_err("worse") {
        Err(Error::Generic(m)) => assert_eq!(m, "worse"),
        _ => panic!("generic_err"),
    }
    let io = std::io::Error::other("disk");
    match Error::from(io) {
        Error::IO(e) => assert_eq!(e.to_string(), "disk"),
        _ => panic!("io"),
    }
}
