//! The state of a response that buffers its body until the head is written
//! and flushed, and then streams it.
//!
//! `P` is what the transport needs to send the head (a response builder and
//! a channel to the connection); `W` is the writer of a streamed body. The
//! functions here decide every transition; the transport performs the I/O
//! that a returned outcome asks for.
use vstd::prelude::*;
use crate::error::Error;

verus! {

/// Where a response stands.
pub enum ResponseState<P, W> {
    /// The head has not been written; the body is buffered.
    Builder { parts: P, buffer: Vec<u8> },
    /// The head has been written with `status`; the body is still buffered.
    Write { parts: P, status: u16, buffer: Vec<u8> },
    /// Head and buffered body are sent; further writes go to `W`.
    Stream(W),
    /// The streamed body has been shut down.
    Done,
}

/// The same, with buffers as sequences.
pub enum StateView<P, W> {
    Builder { parts: P, buffer: Seq<u8> },
    Write { parts: P, status: u16, buffer: Seq<u8> },
    Stream(W),
    Done,
}

impl<P, W> ResponseState<P, W> {
    pub open spec fn view(self) -> StateView<P, W> {
        match self {
            ResponseState::Builder { parts, buffer } => StateView::Builder { parts, buffer: buffer@ },
            ResponseState::Write { parts, status, buffer } => StateView::Write { parts, status, buffer: buffer@ },
            ResponseState::Stream(w) => StateView::Stream(w),
            ResponseState::Done => StateView::Done,
        }
    }
}

/// The view of a response slot; `None` once the state has been taken.
pub open spec fn slot_view<P, W>(slot: Option<ResponseState<P, W>>) -> Option<StateView<P, W>> {
    match slot {
        Some(s) => Some(s.view()),
        None => None,
    }
}

/// What a write of body bytes did.
#[derive(Clone, Copy, Debug, PartialEq, Eq, Structural)]
pub enum WriteOutcome {
    /// The bytes were added to the buffer; this many were accepted.
    Buffered(usize),
    /// The body is streaming: write to the stream's writer.
    ToStream,
    /// The response has ended: the write fails with a broken pipe.
    Ended,
}

/// What a flush did.
pub enum FlushOutcome<P> {
    /// Nothing to send yet.
    Flushed,
    /// The body is streaming: flush the stream's writer.
    ToStream,
    /// The response has ended: the flush fails with a broken pipe.
    Ended,
    /// Send the head with `status`, then stream `buffer` and what follows.
    Open { parts: P, status: u16, buffer: Vec<u8> },
}

pub enum FlushView<P> {
    Flushed,
    ToStream,
    Ended,
    Open { parts: P, status: u16, buffer: Seq<u8> },
}

impl<P> FlushOutcome<P> {
    pub open spec fn view(self) -> FlushView<P> {
        match self {
            FlushOutcome::Flushed => FlushView::Flushed,
            FlushOutcome::ToStream => FlushView::ToStream,
            FlushOutcome::Ended => FlushView::Ended,
            FlushOutcome::Open { parts, status, buffer } => FlushView::Open { parts, status, buffer: buffer@ },
        }
    }
}

/// What a shutdown did.
#[derive(Clone, Copy, Debug, PartialEq, Eq, Structural)]
pub enum ShutdownOutcome {
    /// Shut the stream's writer down, then call [`Response::finish`].
    ToStream,
    /// The head has not been sent: the shutdown fails.
    NotStarted,
    /// The response has ended: the shutdown fails with a broken pipe.
    Ended,
    /// Already shut down.
    AlreadyDone,
}

/// What the last handle of a response leaves to send.
pub enum DropOutcome<P> {
    Nothing,
    /// Send a complete response with `status` and `body`.
    Send { parts: P, status: u16, body: Vec<u8> },
}

pub enum DropView<P> {
    Nothing,
    Send { parts: P, status: u16, body: Seq<u8> },
}

impl<P> DropOutcome<P> {
    pub open spec fn view(self) -> DropView<P> {
        match self {
            DropOutcome::Nothing => DropView::Nothing,
            DropOutcome::Send { parts, status, body } => DropView::Send { parts, status, body: body@ },
        }
    }
}

/// The status a response is sent with when it is dropped before its head
/// was written: 200.
pub open spec fn default_status() -> u16 {
    200
}

/// `write_head`: only a response whose head is unwritten moves on; in any
/// other state the call fails and changes nothing.
pub open spec fn spec_write_head<P, W>(s: Option<StateView<P, W>>, status: u16) -> (Option<StateView<P, W>>, bool) {
    match s {
        Some(StateView::Builder { parts, buffer }) => (Some(StateView::Write { parts, status, buffer }), true),
        _ => (s, false),
    }
}

/// `end`: the state is taken away.
pub open spec fn spec_end<P, W>(s: Option<StateView<P, W>>) -> Option<StateView<P, W>> {
    None
}

/// A write of `bytes`.
pub open spec fn spec_write<P, W>(s: Option<StateView<P, W>>, bytes: Seq<u8>) -> (Option<StateView<P, W>>, WriteOutcome) {
    match s {
        Some(StateView::Builder { parts, buffer }) =>
            (Some(StateView::Builder { parts, buffer: buffer + bytes }), WriteOutcome::Buffered(bytes.len() as usize)),
        Some(StateView::Write { parts, status, buffer }) =>
            (Some(StateView::Write { parts, status, buffer: buffer + bytes }), WriteOutcome::Buffered(bytes.len() as usize)),
        Some(StateView::Stream(w)) => (s, WriteOutcome::ToStream),
        Some(StateView::Done) => (s, WriteOutcome::Ended),
        None => (s, WriteOutcome::Ended),
    }
}

/// A flush.
pub open spec fn spec_flush<P, W>(s: Option<StateView<P, W>>) -> (Option<StateView<P, W>>, FlushView<P>) {
    match s {
        Some(StateView::Builder { .. }) => (s, FlushView::Flushed),
        Some(StateView::Write { parts, status, buffer }) => (None, FlushView::Open { parts, status, buffer }),
        Some(StateView::Stream(w)) => (s, FlushView::ToStream),
        Some(StateView::Done) => (s, FlushView::Ended),
        None => (s, FlushView::Ended),
    }
}

/// A shutdown.
pub open spec fn spec_shutdown<P, W>(s: Option<StateView<P, W>>) -> ShutdownOutcome {
    match s {
        Some(StateView::Builder { .. }) => ShutdownOutcome::NotStarted,
        Some(StateView::Write { .. }) => ShutdownOutcome::NotStarted,
        Some(StateView::Stream(w)) => ShutdownOutcome::ToStream,
        Some(StateView::Done) => ShutdownOutcome::AlreadyDone,
        None => ShutdownOutcome::Ended,
    }
}

/// What the last handle leaves to send.
pub open spec fn spec_drop<P, W>(s: Option<StateView<P, W>>) -> DropView<P> {
    match s {
        Some(StateView::Builder { parts, buffer }) => DropView::Send { parts, status: default_status(), body: buffer },
        Some(StateView::Write { parts, status, buffer }) => DropView::Send { parts, status, body: buffer },
        _ => DropView::Nothing,
    }
}

/// One handle's view of a response.
pub struct Response<P, W> {
    state: Option<ResponseState<P, W>>,
}

impl<P, W> Response<P, W> {
    pub closed spec fn spec_state(&self) -> Option<StateView<P, W>> {
        slot_view(self.state)
    }

    /// A response whose head is unwritten and whose body is empty.
    pub fn new(parts: P) -> (r: Self)
        ensures
            r.spec_state() == Some(StateView::<P, W>::Builder { parts, buffer: Seq::empty() }),
    {
        let r = Response { state: Some(ResponseState::Builder { parts, buffer: Vec::new() }) };
        assert(r.spec_state() =~= Some(StateView::<P, W>::Builder { parts, buffer: Seq::empty() }));
        r
    }

    /// Sets the status of the head. The head cannot be written twice: a
    /// second call fails, and so does a call after the response has moved
    /// on or ended; such a call leaves the response as it was.
    pub fn write_head(&mut self, status: u16) -> (r: Result<(), Error>)
        ensures
            final(self).spec_state() == spec_write_head(old(self).spec_state(), status).0,
            r is Ok <==> spec_write_head(old(self).spec_state(), status).1,
            r matches Err(Error::Generic(m)) ==> m@ == "Tried to write head but head was already written"@,
            r is Err ==> r matches Err(Error::Generic(_)),
    {
        match &self.state {
            Some(ResponseState::Builder { .. }) => {},
            _ => return Error::generic_err("Tried to write head but head was already written"),
        }
        match self.state.take() {
            Some(ResponseState::Builder { parts, buffer }) => {
                self.state = Some(ResponseState::Write { parts, status, buffer });
                Ok(())
            },
            other => {
                self.state = other;
                Error::generic_err("Tried to write head but head was already written")
            },
        }
    }

    /// Ends the response: nothing can be written after this.
    pub fn end(&mut self) -> (r: Result<(), Error>)
        ensures
            final(self).spec_state() == spec_end(old(self).spec_state()),
            r is Ok,
    {
        self.state = None;
        Ok(())
    }

    /// Writes body bytes: buffered until the response streams.
    pub fn write(&mut self, bytes: &[u8]) -> (r: WriteOutcome)
        ensures
            (final(self).spec_state(), r) == spec_write(old(self).spec_state(), bytes@),
    {
        match &mut self.state {
            Some(ResponseState::Builder { parts: _, buffer }) => {
                buffer.extend_from_slice(bytes);
                proof {
                    assert(buffer@ =~= old(self).spec_state().unwrap()->Builder_buffer + bytes@);
                }
                WriteOutcome::Buffered(bytes.len())
            },
            Some(ResponseState::Write { parts: _, status: _, buffer }) => {
                buffer.extend_from_slice(bytes);
                proof {
                    assert(buffer@ =~= old(self).spec_state().unwrap()->Write_buffer + bytes@);
                }
                WriteOutcome::Buffered(bytes.len())
            },
            Some(ResponseState::Stream(_)) => WriteOutcome::ToStream,
            Some(ResponseState::Done) => WriteOutcome::Ended,
            None => WriteOutcome::Ended,
        }
    }

    /// Flushes: a response whose head is written hands its head and buffer
    /// over to be sent, and is empty until [`Response::start_streaming`].
    pub fn flush(&mut self) -> (r: FlushOutcome<P>)
        ensures
            (final(self).spec_state(), r.view()) == spec_flush(old(self).spec_state()),
    {
        match self.state.take() {
            Some(ResponseState::Write { parts, status, buffer }) => FlushOutcome::Open { parts, status, buffer },
            Some(ResponseState::Builder { parts, buffer }) => {
                self.state = Some(ResponseState::Builder { parts, buffer });
                FlushOutcome::Flushed
            },
            Some(ResponseState::Stream(w)) => {
                self.state = Some(ResponseState::Stream(w));
                FlushOutcome::ToStream
            },
            Some(ResponseState::Done) => {
                self.state = Some(ResponseState::Done);
                FlushOutcome::Ended
            },
            None => FlushOutcome::Ended,
        }
    }

    /// The head and buffer have been sent; the body now streams to `writer`.
    pub fn start_streaming(&mut self, writer: W)
        ensures
            final(self).spec_state() == Some(StateView::<P, W>::Stream(writer)),
    {
        self.state = Some(ResponseState::Stream(writer));
    }

    /// Sending the buffer could not finish: the head is kept written with
    /// `status` and `rest` stays buffered.
    pub fn keep_buffered(&mut self, parts: P, status: u16, rest: Vec<u8>)
        ensures
            final(self).spec_state() == Some(StateView::<P, W>::Write { parts, status, buffer: rest@ }),
    {
        self.state = Some(ResponseState::Write { parts, status, buffer: rest });
    }

    /// Shuts down: only a streaming response has anything to shut.
    pub fn shutdown(&self) -> (r: ShutdownOutcome)
        ensures
            r == spec_shutdown(self.spec_state()),
    {
        match &self.state {
            Some(ResponseState::Builder { .. }) => ShutdownOutcome::NotStarted,
            Some(ResponseState::Write { .. }) => ShutdownOutcome::NotStarted,
            Some(ResponseState::Stream(_)) => ShutdownOutcome::ToStream,
            Some(ResponseState::Done) => ShutdownOutcome::AlreadyDone,
            None => ShutdownOutcome::Ended,
        }
    }

    /// The stream's writer has shut down.
    pub fn finish(&mut self)
        ensures
            final(self).spec_state() == Some(StateView::<P, W>::Done),
    {
        self.state = Some(ResponseState::Done);
    }

    /// Takes the response over for a protocol upgrade: only a response whose
    /// head is unwritten can be taken, and its buffer is dropped. Either way
    /// the response is left empty until [`Response::finish`].
    pub fn begin_upgrade(&mut self) -> (r: Result<P, Error>)
        ensures
            final(self).spec_state() is None,
            old(self).spec_state() matches Some(StateView::Builder { parts, .. }) ==> r == Ok::<P, Error>(parts),
            !(old(self).spec_state() matches Some(StateView::Builder { .. })) ==> (r matches Err(Error::Generic(m)) && m@ == "Cannot upgrade"@),
    {
        match self.state.take() {
            Some(ResponseState::Builder { parts, buffer: _ }) => Ok(parts),
            _ => Err(Error::generic("Cannot upgrade")),
        }
    }

    /// The last handle is gone: a response that never streamed is sent whole,
    /// with the status `write_head` set (200 if it was never called) and its
    /// buffer as body.
    pub fn last_handle_dropped(&mut self) -> (r: DropOutcome<P>)
        ensures
            r.view() == spec_drop(old(self).spec_state()),
            final(self).spec_state() is None,
    {
        match self.state.take() {
            Some(ResponseState::Builder { parts, buffer }) => DropOutcome::Send { parts, status: 200, body: buffer },
            Some(ResponseState::Write { parts, status, buffer }) => DropOutcome::Send { parts, status, body: buffer },
            _ => DropOutcome::Nothing,
        }
    }
}

/// The head is written at most once: after a successful `write_head`, a
/// second one fails and leaves the first status and the buffer as they were.
pub proof fn law_head_written_once<P, W>(s: Option<StateView<P, W>>, first: u16, second: u16)
    requires
        spec_write_head(s, first).1,
    ensures
        !spec_write_head(spec_write_head(s, first).0, second).1,
        spec_write_head(spec_write_head(s, first).0, second).0 == spec_write_head(s, first).0,
{
}

/// Nothing can be sent after `end`: writes and flushes report that the
/// response has ended, and so does a shutdown.
pub proof fn law_nothing_after_end<P, W>(s: Option<StateView<P, W>>, bytes: Seq<u8>)
    ensures
        spec_write(spec_end(s), bytes).1 == WriteOutcome::Ended,
        spec_flush(spec_end(s)).1 is Ended,
        spec_shutdown(spec_end(s)) == ShutdownOutcome::Ended,
        spec_drop(spec_end(s)) is Nothing,
{
}

/// Bytes written before and after `write_head` are buffered in order, and
/// the first flush hands all of them over with the status that was given.
pub proof fn law_flush_sends_what_was_written<P, W>(parts: P, first: Seq<u8>, status: u16, second: Seq<u8>)
    ensures
        ({
            let s0 = Some(StateView::<P, W>::Builder { parts, buffer: Seq::empty() });
            let s1 = spec_write(s0, first).0;
            let s2 = spec_write_head(s1, status).0;
            let s3 = spec_write(s2, second).0;
            spec_flush(s3).1 == FlushView::Open { parts, status, buffer: first + second }
        }),
{
    let s0 = Some(StateView::<P, W>::Builder { parts, buffer: Seq::empty() });
    assert(Seq::<u8>::empty() + first =~= first);
}

/// A response dropped before it streams is sent whole, with the status
/// that `write_head` gave and everything that was written; one whose head
/// was never written goes out with status 200.
pub proof fn law_drop_sends_buffer<P, W>(parts: P, first: Seq<u8>, status: u16, second: Seq<u8>)
    ensures
        ({
            let s0 = Some(StateView::<P, W>::Builder { parts, buffer: Seq::empty() });
            let s3 = spec_write(spec_write_head(spec_write(s0, first).0, status).0, second).0;
            spec_drop(s3) == DropView::Send { parts, status, body: first + second }
        }),
        ({
            let s0 = Some(StateView::<P, W>::Builder { parts, buffer: Seq::empty() });
            spec_drop(spec_write(s0, first).0) == DropView::Send { parts, status: default_status(), body: first }
        }),
{
    assert(Seq::<u8>::empty() + first =~= first);
}

/// Once the head has been sent and the body streams, writes go to the
/// stream and the head cannot be written again.
pub proof fn law_streaming_is_final<P, W>(w: W, bytes: Seq<u8>, status: u16)
    ensures
        spec_write(Some(StateView::<P, W>::Stream(w)), bytes).1 == WriteOutcome::ToStream,
        !spec_write_head(Some(StateView::<P, W>::Stream(w)), status).1,
{
}

} // verus!
