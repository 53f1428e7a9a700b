//! The response of the first HTTP/1 server: the body is buffered until the
//! head is written, which opens a stream and sends the buffer into it.
//!
//! `P` is what the transport needs to send the head; `W` is the writer of
//! the streamed body. While the head is being sent the response is pending.
use vstd::prelude::*;
use crate::error::Error;

verus! {

/// Where the response stands.
pub enum Http1State<P, W> {
    Builder(P),
    Stream(W),
    Done,
    Pending,
}

/// What a call of `write_head` asks the transport to do.
pub enum HeadOutcome<P> {
    /// Send the head with `status`, then write `buffer` into the new stream
    /// and call [`Response::start_streaming`].
    Open { parts: P, status: u16, buffer: Vec<u8> },
    /// The call fails.
    Failed(Error),
}

/// What a write of body bytes did.
#[derive(Clone, Copy, Debug, PartialEq, Eq, Structural)]
pub enum Http1WriteOutcome {
    Buffered(usize),
    ToStream,
    /// Fails with a broken pipe.
    Ended,
    /// Fails: another call is in progress.
    Busy,
}

/// The error message of a `write_head` or `end` call in a given state.
pub open spec fn head_error_message<P, W>(s: Http1State<P, W>) -> Seq<char> {
    match s {
        Http1State::Builder(_) => "Already wrote head"@,
        Http1State::Stream(_) => "Already wrote head"@,
        Http1State::Done => "Response has ended"@,
        Http1State::Pending => "Currently Writing"@,
    }
}

/// Whether `write_head` in state `s` opens the stream: only a response
/// whose head is unwritten does.
pub open spec fn head_opens<P, W>(s: Http1State<P, W>) -> bool {
    s is Builder
}

/// The state a `write_head` leaves: a response whose head is unwritten is
/// pending until the transport reports the stream open; a refused call
/// leaves the response as it was.
pub open spec fn state_after_head<P, W>(s: Http1State<P, W>) -> Http1State<P, W> {
    if s is Builder {
        Http1State::Pending
    } else {
        s
    }
}

/// The state an `end` leaves: a streaming response is done; a refused call
/// leaves the response as it was.
pub open spec fn state_after_end<P, W>(s: Http1State<P, W>) -> Http1State<P, W> {
    if s is Stream {
        Http1State::Done
    } else {
        s
    }
}

/// The buffer after a write of `bytes` in state `s`: bytes are kept only
/// while the head is unwritten.
pub open spec fn buffer_after_write<P, W>(s: Http1State<P, W>, buffer: Seq<u8>, bytes: Seq<u8>) -> Seq<u8> {
    if s is Builder {
        buffer + bytes
    } else {
        buffer
    }
}

/// One handle of the response.
pub struct Response<P, W> {
    state: Http1State<P, W>,
    buffer: Vec<u8>,
}

impl<P, W> Response<P, W> {
    pub closed spec fn spec_state(&self) -> Http1State<P, W> {
        self.state
    }

    pub closed spec fn spec_buffer(&self) -> Seq<u8> {
        self.buffer@
    }

    /// A response whose head is unwritten, with an empty buffer.
    pub fn new(parts: P) -> (r: Self)
        ensures
            r.spec_state() == Http1State::<P, W>::Builder(parts),
            r.spec_buffer() == Seq::<u8>::empty(),
    {
        Response { state: Http1State::Builder(parts), buffer: Vec::new() }
    }

    /// Starts sending the head with `status`: the buffer is handed over and
    /// emptied, and the response is pending until the stream is open.
    /// Headers cannot be sent after this is called: a later call fails and
    /// leaves the response as it was.
    pub fn write_head(&mut self, status: u16) -> (r: HeadOutcome<P>)
        ensures
            final(self).spec_state() == state_after_head(old(self).spec_state()),
            r is Open <==> head_opens(old(self).spec_state()),
            old(self).spec_state() is Builder ==> (r matches HeadOutcome::Open { parts, status: st, buffer }
                && parts == old(self).spec_state()->Builder_0 && st == status
                && buffer@ == old(self).spec_buffer() && final(self).spec_buffer() == Seq::<u8>::empty()),
            !(old(self).spec_state() is Builder) ==> (r matches HeadOutcome::Failed(Error::Generic(m))
                && m@ == head_error_message(old(self).spec_state())
                && final(self).spec_buffer() == old(self).spec_buffer()),
    {
        match &self.state {
            Http1State::Builder(_) => {},
            Http1State::Stream(_) => return HeadOutcome::Failed(Error::generic("Already wrote head")),
            Http1State::Done => return HeadOutcome::Failed(Error::generic("Response has ended")),
            Http1State::Pending => return HeadOutcome::Failed(Error::generic("Currently Writing")),
        }
        let mut old_state = Http1State::Pending;
        std::mem::swap(&mut self.state, &mut old_state);
        match old_state {
            Http1State::Builder(parts) => {
                let mut buffer: Vec<u8> = Vec::new();
                std::mem::swap(&mut self.buffer, &mut buffer);
                HeadOutcome::Open { parts, status, buffer }
            },
            _ => HeadOutcome::Failed(Error::generic("Currently Writing")),
        }
    }

    /// The head and buffer are in the stream; the body now goes to `writer`.
    pub fn start_streaming(&mut self, writer: W)
        ensures
            final(self).spec_state() == Http1State::<P, W>::Stream(writer),
            final(self).spec_buffer() == old(self).spec_buffer(),
    {
        self.state = Http1State::Stream(writer);
    }

    /// Ends a streaming response: nothing can be sent after this is called,
    /// and the transport closes the stream. In any other state the call fails
    /// and leaves the response as it was.
    pub fn end(&mut self) -> (r: Result<(), Error>)
        ensures
            final(self).spec_state() == state_after_end(old(self).spec_state()),
            final(self).spec_buffer() == old(self).spec_buffer(),
            r is Ok <==> old(self).spec_state() is Stream,
            !(old(self).spec_state() is Stream) ==> (r matches Err(Error::Generic(m)) && m@ == head_error_message(old(self).spec_state())),
    {
        match &self.state {
            Http1State::Stream(_) => {
                self.state = Http1State::Done;
                Ok(())
            },
            Http1State::Builder(_) => Err(Error::generic("Already wrote head")),
            Http1State::Done => Err(Error::generic("Response has ended")),
            Http1State::Pending => Err(Error::generic("Currently Writing")),
        }
    }

    /// Writes body bytes: buffered until the head is written.
    pub fn write(&mut self, bytes: &[u8]) -> (r: Http1WriteOutcome)
        ensures
            final(self).spec_state() == old(self).spec_state(),
            final(self).spec_buffer() == buffer_after_write(old(self).spec_state(), old(self).spec_buffer(), bytes@),
            old(self).spec_state() is Builder ==> r == Http1WriteOutcome::Buffered(bytes@.len() as usize)
                && final(self).spec_buffer() == old(self).spec_buffer() + bytes@,
            !(old(self).spec_state() is Builder) ==> final(self).spec_buffer() == old(self).spec_buffer(),
            old(self).spec_state() is Stream ==> r == Http1WriteOutcome::ToStream,
            old(self).spec_state() is Done ==> r == Http1WriteOutcome::Ended,
            old(self).spec_state() is Pending ==> r == Http1WriteOutcome::Busy,
    {
        match &self.state {
            Http1State::Builder(_) => {
                self.buffer.extend_from_slice(bytes);
                assert(self.buffer@ =~= old(self).spec_buffer() + bytes@);
                Http1WriteOutcome::Buffered(bytes.len())
            },
            Http1State::Stream(_) => Http1WriteOutcome::ToStream,
            Http1State::Done => Http1WriteOutcome::Ended,
            Http1State::Pending => Http1WriteOutcome::Busy,
        }
    }

    /// What a flush or a shutdown meets: `Buffered(0)` stands for a response
    /// whose head is unwritten.
    pub fn state_outcome(&self) -> (r: Http1WriteOutcome)
        ensures
            self.spec_state() is Builder ==> r == Http1WriteOutcome::Buffered(0),
            self.spec_state() is Stream ==> r == Http1WriteOutcome::ToStream,
            self.spec_state() is Done ==> r == Http1WriteOutcome::Ended,
            self.spec_state() is Pending ==> r == Http1WriteOutcome::Busy,
    {
        match &self.state {
            Http1State::Builder(_) => Http1WriteOutcome::Buffered(0),
            Http1State::Stream(_) => Http1WriteOutcome::ToStream,
            Http1State::Done => Http1WriteOutcome::Ended,
            Http1State::Pending => Http1WriteOutcome::Busy,
        }
    }

    /// The stream's writer has shut down.
    pub fn finish(&mut self)
        ensures
            final(self).spec_state() is Done,
            final(self).spec_buffer() == old(self).spec_buffer(),
    {
        self.state = Http1State::Done;
    }

    /// The handle is dropped: a response whose head was never written is sent
    /// whole with status 200 and the buffer as body.
    pub fn dropped(&mut self) -> (r: Option<(P, u16, Vec<u8>)>)
        ensures
            final(self).spec_state() is Pending,
            old(self).spec_state() is Builder ==> (r matches Some((parts, st, body))
                && parts == old(self).spec_state()->Builder_0 && st == 200 && body@ == old(self).spec_buffer()),
            !(old(self).spec_state() is Builder) ==> r is None,
    {
        let mut old_state = Http1State::Pending;
        std::mem::swap(&mut self.state, &mut old_state);
        match old_state {
            Http1State::Builder(parts) => {
                let mut body: Vec<u8> = Vec::new();
                std::mem::swap(&mut self.buffer, &mut body);
                Some((parts, 200, body))
            },
            _ => None,
        }
    }
}

/// The head is sent at most once: after a `write_head` that opened the
/// stream the response is pending and a second call fails; a refused call
/// changes nothing.
pub proof fn law_head_sent_once<P, W>(s: Http1State<P, W>)
    ensures
        !head_opens(state_after_head(s)),
        head_opens(s) ==> head_error_message(state_after_head(s)) == "Currently Writing"@,
        !head_opens(s) ==> state_after_head(s) == s,
{
}

/// Nothing is sent after a streaming response ends: it is done, so a write
/// is refused as ended and the head cannot be written again.
pub proof fn law_nothing_after_end<P, W>(w: W, buffer: Seq<u8>, bytes: Seq<u8>)
    ensures
        state_after_end(Http1State::<P, W>::Stream(w)) is Done,
        buffer_after_write(state_after_end(Http1State::<P, W>::Stream(w)), buffer, bytes) == buffer,
        !head_opens(state_after_end(Http1State::<P, W>::Stream(w))),
{
}

/// Bytes written before the head is sent are kept in order, and are what
/// `write_head` hands to the new stream.
pub proof fn law_buffer_precedes_head<P, W>(parts: P, first: Seq<u8>, second: Seq<u8>)
    ensures
        ({
            let s = Http1State::<P, W>::Builder(parts);
            let b = buffer_after_write(s, buffer_after_write(s, Seq::empty(), first), second);
            b == first + second && head_opens(s)
        }),
{
    assert(Seq::<u8>::empty() + first =~= first);
}

/// Once the head is sent, nothing more is buffered: writes in any other
/// state leave the buffer as it was.
pub proof fn law_no_buffering_after_head<P, W>(s: Http1State<P, W>, buffer: Seq<u8>, bytes: Seq<u8>)
    requires
        !(s is Builder),
    ensures
        buffer_after_write(s, buffer, bytes) == buffer,
{
}

} // verus!
