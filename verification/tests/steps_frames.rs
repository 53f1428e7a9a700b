use uhttp::body_reader::{BodyReader, FrameStep, Polled};
use uhttp::file_server::{etag_source, ETagStrategy, EtagSource};
use uhttp::paths::has_parent_segment;
use uhttp::router::{RunEnd, Step, StepResult, StepRun};

#[test]
fn steps_are_handed_out_in_order_until_the_end() {
    let mut run = StepRun::new(vec![Step::Global(0), Step::SetParams, Step::Handler]);
    assert_eq!(run.next_step(), Some(Step::Global(0)));
    run.report(StepResult::Continue);
    assert_eq!(run.next_step(), Some(Step::SetParams));
    run.report(StepResult::Continue);
    assert_eq!(run.next_step(), Some(Step::Handler));
    run.report(StepResult::Continue);
    assert_eq!(run.end(), None);
    assert_eq!(run.next_step(), None);
    assert_eq!(run.end(), Some(RunEnd::Finished));
}

#[test]
fn a_middleware_that_ends_the_request_stops_the_run() {
    let mut run = StepRun::new(vec![Step::Global(0), Step::Global(1), Step::Handler]);
    assert_eq!(run.next_step(), Some(Step::Global(0)));
    run.report(StepResult::Stop);
    assert_eq!(run.next_step(), None);
    assert_eq!(run.end(), Some(RunEnd::Stopped));
    let mut run = StepRun::new(vec![Step::Global(0), Step::Handler]);
    run.next_step();
    run.report(StepResult::Fail);
    run.report(StepResult::Continue);
    assert_eq!(run.next_step(), None);
    assert_eq!(run.end(), Some(RunEnd::Failed));
}

#[test]
fn frames_feed_the_reader() {
    let mut r = BodyReader::new(());
    assert_eq!(r.take_frame(Polled::Trailers), FrameStep::ReadAgain);
    assert_eq!(r.read(4), None);
    assert_eq!(r.take_frame(Polled::Data(b"abc".to_vec())), FrameStep::ReadAgain);
    assert_eq!(r.read(4), Some(b"abc".to_vec()));
    assert_eq!(r.take_frame(Polled::End), FrameStep::Finished);
    assert_eq!(r.take_frame(Polled::Failed), FrameStep::Failed);
}

#[test]
fn etag_strategy_names_its_source() {
    assert_eq!(etag_source(ETagStrategy::Hash), EtagSource::Contents);
    assert_eq!(etag_source(ETagStrategy::LastModified), EtagSource::Metadata);
    assert_eq!(etag_source(ETagStrategy::Disabled), EtagSource::Nothing);
}

#[test]
fn parent_segments_are_found() {
    assert!(has_parent_segment(".."));
    assert!(has_parent_segment("../a"));
    assert!(has_parent_segment("a/.."));
    assert!(has_parent_segment("a/../b"));
    assert!(!has_parent_segment("a/...html"));
    assert!(!has_parent_segment("a..b/c.."));
    assert!(!has_parent_segment("."));
    assert!(!has_parent_segment(""));
}
