//! Finding the end of a request head read one byte at a time: the blank
//! line `\r\n\r\n` that ends it, and how many lines it has.
use vstd::prelude::*;

verus! {

pub open spec fn cr() -> u8 {
    13
}

pub open spec fn lf() -> u8 {
    10
}

/// `s` ends with `tail`.
pub open spec fn ends_with(s: Seq<u8>, tail: Seq<u8>) -> bool {
    tail.len() <= s.len() && s.subrange(s.len() - tail.len(), s.len() as int) == tail
}

/// What the scanner has seen of a line ending: `\r`, `\r\n`, `\r\n\r`.
pub struct ScanState {
    pub rc1: bool,
    pub nl1: bool,
    pub rc2: bool,
}

/// One byte of input: the next state, whether the head is complete, and
/// whether a line ended. A `\r` starts a line ending only when none is under
/// way; a byte that does not continue the ending under way starts over.
pub open spec fn step(s: ScanState, v: u8) -> (ScanState, bool, bool) {
    if !s.rc1 && v == cr() {
        (ScanState { rc1: true, nl1: s.nl1, rc2: s.rc2 }, false, false)
    } else if s.rc1 && !s.nl1 && v == lf() {
        (ScanState { rc1: true, nl1: true, rc2: s.rc2 }, false, true)
    } else if s.rc1 && s.nl1 && !s.rc2 && v == cr() {
        (ScanState { rc1: true, nl1: true, rc2: true }, false, false)
    } else if s.rc1 && s.nl1 && s.rc2 && v == lf() {
        (s, true, false)
    } else {
        (ScanState { rc1: false, nl1: false, rc2: false }, false, false)
    }
}

/// Reads a request head byte by byte.
pub struct HeadScanner {
    state: ScanState,
    lines: usize,
    head: Vec<u8>,
}

impl HeadScanner {
    pub closed spec fn spec_state(&self) -> ScanState {
        self.state
    }

    /// The bytes kept: everything fed except the final `\n`.
    pub closed spec fn spec_head(&self) -> Seq<u8> {
        self.head@
    }

    /// The number of line endings seen.
    pub closed spec fn spec_lines(&self) -> nat {
        self.lines as nat
    }

    /// The state agrees with the bytes kept.
    pub open spec fn wf(&self) -> bool {
        let s = self.spec_state();
        &&& (s.nl1 ==> s.rc1)
        &&& (s.rc2 ==> s.nl1)
        &&& (s.rc1 && !s.nl1 ==> ends_with(self.spec_head(), seq![cr()]))
        &&& (s.nl1 && !s.rc2 ==> ends_with(self.spec_head(), seq![cr(), lf()]))
        &&& (s.rc2 ==> ends_with(self.spec_head(), seq![cr(), lf(), cr()]))
        &&& (s.nl1 ==> self.spec_lines() >= 1)
    }

    /// A scanner that has seen nothing.
    pub fn new() -> (r: HeadScanner)
        ensures
            r.wf(),
            r.spec_state() == (ScanState { rc1: false, nl1: false, rc2: false }),
            r.spec_head() == Seq::<u8>::empty(),
            r.spec_lines() == 0,
    {
        HeadScanner { state: ScanState { rc1: false, nl1: false, rc2: false }, lines: 0, head: Vec::new() }
    }

    /// Feeds the next byte. Returns whether the head is complete; the byte
    /// that completes it is not kept, the others are.
    pub fn feed(&mut self, v: u8) -> (done: bool)
        requires
            old(self).wf(),
            old(self).spec_lines() < usize::MAX,
        ensures
            final(self).wf(),
            final(self).spec_state() == step(old(self).spec_state(), v).0,
            done == step(old(self).spec_state(), v).1,
            final(self).spec_lines() == old(self).spec_lines() + (if step(old(self).spec_state(), v).2 { 1int } else { 0int }),
            done ==> final(self).spec_head() == old(self).spec_head(),
            !done ==> final(self).spec_head() == old(self).spec_head().push(v),
            done ==> ends_with(final(self).spec_head().push(v), seq![cr(), lf(), cr(), lf()]),
            done ==> final(self).spec_lines() >= 1,
    {
        let ghost h = self.head@;
        let s = &self.state;
        if !s.rc1 && v == 13 {
            self.state = ScanState { rc1: true, nl1: s.nl1, rc2: s.rc2 };
        } else if s.rc1 && !s.nl1 && v == 10 {
            self.state = ScanState { rc1: true, nl1: true, rc2: s.rc2 };
            self.lines = self.lines + 1;
        } else if s.rc1 && s.nl1 && !s.rc2 && v == 13 {
            self.state = ScanState { rc1: true, nl1: true, rc2: true };
        } else if s.rc1 && s.nl1 && s.rc2 && v == 10 {
            assert(h.push(v).subrange(h.len() - 3, h.len() + 1int) =~= seq![cr(), lf(), cr(), lf()]) by {
                assert(h.subrange(h.len() - 3, h.len() as int) =~= seq![cr(), lf(), cr()]);
                assert(h.push(v).subrange(h.len() - 3, h.len() as int) =~= h.subrange(h.len() - 3, h.len() as int));
            }
            return true;
        } else {
            self.state = ScanState { rc1: false, nl1: false, rc2: false };
        }
        self.head.push(v);
        proof {
            let n = self.head@;
            assert(n == h.push(v));
            let t = self.state;
            if t.rc1 && !t.nl1 {
                assert(n.subrange(n.len() - 1, n.len() as int) =~= seq![cr()]);
            }
            if t.nl1 && !t.rc2 {
                assert(h.subrange(h.len() - 1, h.len() as int) =~= seq![cr()]);
                assert(h.subrange(h.len() - 1, h.len() as int)[0] == h[h.len() - 1]);
                assert(n.subrange(n.len() - 2, n.len() as int) =~= seq![cr(), lf()]);
            }
            if t.rc2 {
                assert(h.subrange(h.len() - 2, h.len() as int) =~= seq![cr(), lf()]);
                assert(h.subrange(h.len() - 2, h.len() as int)[0] == h[h.len() - 2]);
                assert(h.subrange(h.len() - 2, h.len() as int)[1] == h[h.len() - 1]);
                assert(n.subrange(n.len() - 3, n.len() as int) =~= seq![cr(), lf(), cr()]);
            }
        }
        false
    }

    /// The bytes of the head kept so far.
    pub fn head(&self) -> (r: &[u8])
        ensures
            r@ == self.spec_head(),
    {
        self.head.as_slice()
    }

    /// The number of line endings seen: the request line and each field.
    pub fn lines(&self) -> (r: usize)
        ensures
            r == self.spec_lines(),
    {
        self.lines
    }
}

} // verus!
