use uhttp::http1::{HeadOutcome, Http1WriteOutcome, Response};
use uhttp::Error;

fn message(e: Error) -> String {
    match e {
        Error::Generic(m) => m,
        other => panic!("unexpected error {:?}", other),
    }
}

#[test]
fn body_written_before_head_goes_into_the_stream() {
    let mut r: Response<&str, u8> = Response::new("parts");
    assert_eq!(r.write(b"ab"), Http1WriteOutcome::Buffered(2));
    assert_eq!(r.write(b"c"), Http1WriteOutcome::Buffered(1));
    assert_eq!(r.state_outcome(), Http1WriteOutcome::Buffered(0));
    match r.write_head(201) {
        HeadOutcome::Open { parts, status, buffer } => {
            assert_eq!(parts, "parts");
            assert_eq!(status, 201);
            assert_eq!(buffer, b"abc".to_vec());
        }
        HeadOutcome::Failed(e) => panic!("head fails: {:?}", e),
    }
    assert_eq!(r.write(b"x"), Http1WriteOutcome::Busy);
    r.start_streaming(9);
    assert_eq!(r.write(b"x"), Http1WriteOutcome::ToStream);
    assert_eq!(r.state_outcome(), Http1WriteOutcome::ToStream);
    r.finish();
    assert_eq!(r.write(b"x"), Http1WriteOutcome::Ended);
    assert_eq!(r.state_outcome(), Http1WriteOutcome::Ended);
}

#[test]
fn head_is_sent_once() {
    let mut r: Response<&str, u8> = Response::new("parts");
    assert!(matches!(r.write_head(200), HeadOutcome::Open { .. }));
    match r.write_head(200) {
        HeadOutcome::Failed(e) => assert_eq!(message(e), "Currently Writing"),
        HeadOutcome::Open { .. } => panic!("second head"),
    }
    r.start_streaming(1);
    match r.write_head(200) {
        HeadOutcome::Failed(e) => assert_eq!(message(e), "Already wrote head"),
        HeadOutcome::Open { .. } => panic!("second head"),
    }
    assert_eq!(r.write(b"still streams"), Http1WriteOutcome::ToStream);
}

#[test]
fn end_finishes_only_a_streaming_response() {
    let mut r: Response<&str, u8> = Response::new("parts");
    assert_eq!(message(r.end().unwrap_err()), "Already wrote head");
    assert_eq!(r.write(b"x"), Http1WriteOutcome::Buffered(1));
    assert!(matches!(r.write_head(200), HeadOutcome::Open { .. }));
    assert_eq!(message(r.end().unwrap_err()), "Currently Writing");
    r.start_streaming(3);
    assert!(r.end().is_ok());
    assert_eq!(r.write(b"y"), Http1WriteOutcome::Ended);
    assert_eq!(r.state_outcome(), Http1WriteOutcome::Ended);
    assert_eq!(message(r.end().unwrap_err()), "Response has ended");
    match r.write_head(200) {
        HeadOutcome::Failed(e) => assert_eq!(message(e), "Response has ended"),
        HeadOutcome::Open { .. } => panic!("head after end"),
    }
}

#[test]
fn dropping_an_unsent_response_sends_status_200_and_the_buffer() {
    let mut r: Response<&str, u8> = Response::new("parts");
    r.write(b"hi");
    assert_eq!(r.dropped(), Some(("parts", 200, b"hi".to_vec())));
    assert_eq!(r.dropped(), None);
}
