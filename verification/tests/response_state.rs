use uhttp::response::{DropOutcome, FlushOutcome, Response, ShutdownOutcome, WriteOutcome};
use uhttp::Error;

fn fresh() -> Response<&'static str, u32> {
    Response::new("parts")
}

#[test]
fn writes_are_buffered_until_the_head_is_flushed() {
    let mut r = fresh();
    assert_eq!(r.write(b"hello "), WriteOutcome::Buffered(6));
    assert!(matches!(r.flush(), FlushOutcome::Flushed));
    assert!(r.write_head(201).is_ok());
    assert_eq!(r.write(b"world"), WriteOutcome::Buffered(5));
    match r.flush() {
        FlushOutcome::Open { parts, status, buffer } => {
            assert_eq!(parts, "parts");
            assert_eq!(status, 201);
            assert_eq!(buffer, b"hello world".to_vec());
        }
        _ => panic!("the first flush after write_head opens the stream"),
    }
    r.start_streaming(7);
    assert_eq!(r.write(b"more"), WriteOutcome::ToStream);
    assert!(matches!(r.flush(), FlushOutcome::ToStream));
    assert_eq!(r.shutdown(), ShutdownOutcome::ToStream);
    r.finish();
    assert_eq!(r.shutdown(), ShutdownOutcome::AlreadyDone);
    assert_eq!(r.write(b"late"), WriteOutcome::Ended);
    assert!(matches!(r.flush(), FlushOutcome::Ended));
}

#[test]
fn head_cannot_be_written_twice() {
    let mut r = fresh();
    assert!(r.write_head(200).is_ok());
    r.write(b"ab");
    match r.write_head(404) {
        Err(Error::Generic(m)) => assert_eq!(m, "Tried to write head but head was already written"),
        _ => panic!("a second write_head fails"),
    }
    assert_eq!(r.write(b"c"), WriteOutcome::Buffered(1));
    match r.flush() {
        FlushOutcome::Open { status, buffer, .. } => {
            assert_eq!(status, 200);
            assert_eq!(buffer, b"abc".to_vec());
        }
        _ => panic!("the refused call left the response as it was"),
    }
}

#[test]
fn nothing_is_sent_after_end() {
    let mut r = fresh();
    r.write(b"body");
    assert!(r.end().is_ok());
    assert_eq!(r.write(b"x"), WriteOutcome::Ended);
    assert!(matches!(r.flush(), FlushOutcome::Ended));
    assert_eq!(r.shutdown(), ShutdownOutcome::Ended);
    assert!(matches!(r.last_handle_dropped(), DropOutcome::Nothing));
    assert!(r.write_head(200).is_err());
}

#[test]
fn shutdown_before_head_is_not_started() {
    let r = fresh();
    assert_eq!(r.shutdown(), ShutdownOutcome::NotStarted);
    let mut r = fresh();
    r.write_head(200).unwrap();
    assert_eq!(r.shutdown(), ShutdownOutcome::NotStarted);
}

#[test]
fn dropped_response_is_sent_whole_with_its_status() {
    let mut r = fresh();
    r.write(b"ab");
    r.write_head(404).unwrap();
    r.write(b"cd");
    match r.last_handle_dropped() {
        DropOutcome::Send { parts, status, body } => {
            assert_eq!(parts, "parts");
            assert_eq!(status, 404);
            assert_eq!(body, b"abcd".to_vec());
        }
        DropOutcome::Nothing => panic!("an unsent response is sent on drop"),
    }
    assert!(matches!(r.last_handle_dropped(), DropOutcome::Nothing));
}

#[test]
fn dropped_response_without_head_is_sent_with_status_200() {
    let mut r = fresh();
    r.write(b"hello");
    match r.last_handle_dropped() {
        DropOutcome::Send { status, body, .. } => {
            assert_eq!(status, 200);
            assert_eq!(body, b"hello".to_vec());
        }
        DropOutcome::Nothing => panic!("an unsent response is sent on drop"),
    }
}

#[test]
fn streaming_response_leaves_nothing_on_drop() {
    let mut r = fresh();
    r.start_streaming(1);
    assert!(matches!(r.last_handle_dropped(), DropOutcome::Nothing));
}

#[test]
fn unfinished_send_keeps_the_rest_buffered() {
    let mut r = fresh();
    r.write_head(200).unwrap();
    r.write(b"abc");
    if let FlushOutcome::Open { parts, status, buffer } = r.flush() {
        r.keep_buffered(parts, status, buffer[1..].to_vec());
    } else {
        panic!("flush opens");
    }
    match r.flush() {
        FlushOutcome::Open { status, buffer, .. } => {
            assert_eq!(status, 200);
            assert_eq!(buffer, b"bc".to_vec());
        }
        _ => panic!("the rest is handed over again"),
    }
}

#[test]
fn upgrade_takes_an_unwritten_response() {
    let mut r = fresh();
    r.write(b"dropped");
    assert_eq!(r.begin_upgrade().ok(), Some("parts"));
    assert_eq!(r.shutdown(), ShutdownOutcome::Ended);
    let mut r = fresh();
    r.write_head(101).unwrap();
    match r.begin_upgrade() {
        Err(Error::Generic(m)) => assert_eq!(m, "Cannot upgrade"),
        _ => panic!("a written head cannot be upgraded"),
    }
}
