//! Reading a request body that arrives in chunks into buffers of any size.
//!
//! `F` is the source of chunks; the reader keeps the unread part of the
//! current chunk and decides how much of it a read takes.
use vstd::prelude::*;

verus! {

/// What polling the body for its next frame gave.
pub enum Polled {
    /// A frame of body bytes.
    Data(Vec<u8>),
    /// A frame of another kind, such as trailers.
    Trailers,
    /// Reading the body failed.
    Failed,
    /// The body has ended.
    End,
}

/// What a read does after a frame.
#[derive(Clone, Copy, Debug, PartialEq, Eq, Structural)]
pub enum FrameStep {
    /// Read again: from the new chunk, or by polling for the next frame.
    ReadAgain,
    /// The body has ended: the read completes with nothing more.
    Finished,
    /// The read fails.
    Failed,
}

/// A body read chunk by chunk.
pub struct BodyReader<F> {
    body: F,
    current_chunk: Option<(Vec<u8>, usize)>,
}

impl<F> BodyReader<F> {
    /// The unread bytes of the current chunk, if there is one.
    pub closed spec fn spec_pending(&self) -> Option<Seq<u8>> {
        match self.current_chunk {
            Some((c, pos)) => Some(c@.subrange(pos as int, c@.len() as int)),
            None => None,
        }
    }

    pub closed spec fn spec_body(&self) -> F {
        self.body
    }

    pub closed spec fn wf(&self) -> bool {
        match self.current_chunk {
            Some((c, pos)) => pos <= c@.len(),
            None => true,
        }
    }

    /// A reader with no chunk yet.
    pub fn new(body: F) -> (r: Self)
        ensures
            r.wf(),
            r.spec_pending() is None,
            r.spec_body() == body,
    {
        BodyReader { body, current_chunk: None }
    }

    /// The source of chunks.
    pub fn body_mut(&mut self) -> (r: &mut F)
        ensures
            *r == old(self).spec_body(),
            final(self).spec_body() == *final(r),
            final(self).spec_pending() == old(self).spec_pending(),
            final(self).wf() == old(self).wf(),
    {
        &mut self.body
    }

    /// Reads from the current chunk into a buffer with room for `room` bytes:
    /// as many bytes as both allow. A chunk with nothing left is dropped and
    /// `None` says that the next chunk must be fetched.
    pub fn read(&mut self, room: usize) -> (r: Option<Vec<u8>>)
        requires
            old(self).wf(),
        ensures
            final(self).wf(),
            final(self).spec_body() == old(self).spec_body(),
            match old(self).spec_pending() {
                Some(p) => if p.len() > 0 {
                    let n = if p.len() < room { p.len() } else { room as nat };
                    r matches Some(bytes) && bytes@ == p.subrange(0, n as int)
                        && final(self).spec_pending() == Some(p.subrange(n as int, p.len() as int))
                } else {
                    r is None && final(self).spec_pending() is None
                },
                None => r is None && final(self).spec_pending() is None,
            },
    {
        match &mut self.current_chunk {
            Some((chunk, pos)) => {
                let remaining = chunk.len() - *pos;
                if remaining > 0 {
                    let ghost p = chunk@.subrange(*pos as int, chunk@.len() as int);
                    let n = if remaining < room { remaining } else { room };
                    let start = *pos;
                    let out = vstd::slice::slice_to_vec(vstd::slice::slice_subrange(chunk.as_slice(), start, start + n));
                    *pos = start + n;
                    assert(out@ =~= p.subrange(0, n as int));
                    assert(chunk@.subrange(*pos as int, chunk@.len() as int) =~= p.subrange(n as int, p.len() as int));
                    Some(out)
                } else {
                    self.current_chunk = None;
                    None
                }
            },
            None => None,
        }
    }

    /// Takes what polling for the next frame gave: body bytes become the
    /// current chunk and other frames are passed over; the end of the body
    /// finishes the read and a failure fails it.
    pub fn take_frame(&mut self, polled: Polled) -> (r: FrameStep)
        requires
            old(self).wf(),
        ensures
            final(self).wf(),
            final(self).spec_body() == old(self).spec_body(),
            match polled {
                Polled::Data(d) => r == FrameStep::ReadAgain && final(self).spec_pending() == Some(d@),
                Polled::Trailers => r == FrameStep::ReadAgain && final(self).spec_pending() == old(self).spec_pending(),
                Polled::Failed => r == FrameStep::Failed && final(self).spec_pending() == old(self).spec_pending(),
                Polled::End => r == FrameStep::Finished && final(self).spec_pending() == old(self).spec_pending(),
            },
    {
        match polled {
            Polled::Data(d) => {
                self.set_chunk(d);
                FrameStep::ReadAgain
            },
            Polled::Trailers => FrameStep::ReadAgain,
            Polled::Failed => FrameStep::Failed,
            Polled::End => FrameStep::Finished,
        }
    }

    /// The next chunk has arrived; reads take from it.
    pub fn set_chunk(&mut self, data: Vec<u8>)
        ensures
            final(self).wf(),
            final(self).spec_pending() == Some(data@),
            final(self).spec_body() == old(self).spec_body(),
    {
        self.current_chunk = Some((data, 0));
        assert(data@.subrange(0, data@.len() as int) =~= data@);
    }
}

/// Reading never loses or reorders bytes: what one read takes, followed by
/// what is left, is what was pending.
pub proof fn law_read_keeps_bytes(p: Seq<u8>, n: nat)
    requires
        n <= p.len(),
    ensures
        p.subrange(0, n as int) + p.subrange(n as int, p.len() as int) == p,
{
    assert(p.subrange(0, n as int) + p.subrange(n as int, p.len() as int) =~= p);
}

/// A frame of a body, as the reader sees it.
pub enum FrameView {
    Data(Seq<u8>),
    Trailers,
}

/// The bytes of the data frames, in order.
pub open spec fn data_of(frames: Seq<FrameView>) -> Seq<u8>
    decreases frames.len(),
{
    if frames.len() == 0 {
        Seq::empty()
    } else {
        match frames[0] {
            FrameView::Data(d) => d + data_of(frames.drop_first()),
            FrameView::Trailers => data_of(frames.drop_first()),
        }
    }
}

/// What successive reads with room for `room` bytes deliver, starting with
/// `pending` unread and `frames` still to come before the body ends: each
/// read takes what fits of the pending bytes; when none are pending the
/// next frame is taken, a data frame becoming the pending bytes.
pub open spec fn delivered(pending: Seq<u8>, frames: Seq<FrameView>, room: nat) -> Seq<u8>
    decreases frames.len(), pending.len(),
{
    if room == 0 {
        Seq::empty()
    } else if pending.len() > 0 {
        let n = if pending.len() < room { pending.len() } else { room };
        pending.subrange(0, n as int) + delivered(pending.subrange(n as int, pending.len() as int), frames, room)
    } else if frames.len() == 0 {
        Seq::empty()
    } else {
        match frames[0] {
            FrameView::Data(d) => delivered(d, frames.drop_first(), room),
            FrameView::Trailers => delivered(Seq::empty(), frames.drop_first(), room),
        }
    }
}

/// Reading a whole body, with any room greater than zero, delivers the
/// pending bytes and then the bytes of every data frame, in order, and
/// nothing else: trailers add nothing.
pub proof fn law_reads_deliver_the_data(pending: Seq<u8>, frames: Seq<FrameView>, room: nat)
    requires
        room > 0,
    ensures
        delivered(pending, frames, room) == pending + data_of(frames),
    decreases frames.len(), pending.len(),
{
    if pending.len() > 0 {
        let n = if pending.len() < room { pending.len() } else { room };
        law_reads_deliver_the_data(pending.subrange(n as int, pending.len() as int), frames, room);
        assert(pending.subrange(0, n as int) + pending.subrange(n as int, pending.len() as int) =~= pending);
        assert(pending.subrange(0, n as int) + (pending.subrange(n as int, pending.len() as int) + data_of(frames))
            =~= pending + data_of(frames));
    } else if frames.len() == 0 {
        assert(pending + data_of(frames) =~= Seq::<u8>::empty());
    } else {
        match frames[0] {
            FrameView::Data(d) => {
                law_reads_deliver_the_data(d, frames.drop_first(), room);
            },
            FrameView::Trailers => {
                law_reads_deliver_the_data(Seq::empty(), frames.drop_first(), room);
                assert(Seq::<u8>::empty() + data_of(frames.drop_first()) =~= data_of(frames.drop_first()));
            },
        }
        assert(pending =~= Seq::<u8>::empty());
        assert(pending + data_of(frames) =~= data_of(frames));
    }
}

} // verus!
