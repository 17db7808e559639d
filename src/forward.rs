//! The decisions of one forwarding loop, from a byte source to a byte sink.
//!
//! The loop reads a chunk, takes every complete line out of what it has
//! accumulated, and writes each one, re-encoded, before it reads again. The
//! caller performs each `Action` and hands back what came of it as an `Event`.
use bytes::BytesMut;
use vstd::prelude::*;
use vstd::utf8::*;

use crate::bytes_buf::{append, bytes_of, empty_buf, held_bytes};
use crate::codec::{
    is_first_boundary, lemma_first_boundary_exists, line_bytes, no_boundary, DecodeError, SerialReadCodec, SerialWriteCodec,
};
use crate::eol::Eol;

verus! {

/// Why a forwarding loop stopped with an error.
#[derive(Clone, Copy, Debug, PartialEq, Eq, Structural)]
pub enum LoopError {
    /// A line was not valid text.
    Decode(DecodeError),
    /// Reading from the source failed.
    Read,
    /// Writing to the sink failed.
    Write,
}

/// Where a forwarding loop stands.
#[derive(Clone, Copy, Debug, PartialEq, Eq, Structural)]
pub enum Phase {
    /// A read from the source is outstanding.
    Reading,
    /// A write of one line to the sink is outstanding.
    Writing,
    /// The source ended; the loop is done.
    Closed,
    /// The loop stopped on an error.
    Failed(LoopError),
}

/// What came of the last action.
pub enum Event {
    /// The source gave these bytes.
    Received(Vec<u8>),
    /// The source reached its end.
    Closed,
    /// Reading from the source failed.
    ReadFailed,
    /// The sink took the whole of the last write.
    Written,
    /// Writing to the sink failed.
    WriteFailed,
}

/// What the loop asks the caller to do next.
pub enum Action {
    /// Read the next chunk from the source.
    Read,
    /// Write these bytes to the sink, all of them.
    Write(BytesMut),
    /// Stop with this outcome.
    Finish(Result<(), LoopError>),
}

/// One forwarding loop: its accumulator of bytes not yet forming a line, the
/// policy of the sink, and where it stands.
pub struct Forwarder {
    decoder: SerialReadCodec,
    encoder: SerialWriteCodec,
    buf: BytesMut,
    phase: Phase,
}

impl Forwarder {
    /// Bytes received that do not form a complete line yet, or whose lines
    /// have not been written yet.
    pub closed spec fn pending(&self) -> Seq<u8> {
        bytes_of(self.buf)
    }

    pub closed spec fn phase(&self) -> Phase {
        self.phase
    }

    /// The terminator policy of the sink.
    pub closed spec fn policy(&self) -> Eol {
        self.encoder.0
    }

    pub closed spec fn wf(&self) -> bool {
        &&& self.decoder.consistent_with(bytes_of(self.buf))
        &&& bytes_of(self.buf).len() < isize::MAX
        &&& self.phase == Phase::Reading ==> no_boundary(bytes_of(self.buf))
    }

    /// The events that can answer the action last asked for: those of a read
    /// while reading, those of a write while writing, none once finished.
    pub open spec fn awaits(&self, e: &Event) -> bool {
        match self.phase() {
            Phase::Reading => match e {
                Event::Received(c) => self.pending().len() + c@.len() < isize::MAX,
                Event::Closed => true,
                Event::ReadFailed => true,
                _ => false,
            },
            Phase::Writing => e is Written || e is WriteFailed,
            _ => false,
        }
    }

    /// `self` and `r` are what comes of taking the next line out of `p`:
    /// with no boundary in `p`, a read; with a line of valid text, a write of
    /// its bytes and the terminator; otherwise a stop on the decoding error.
    pub open spec fn drains(&self, p: Seq<u8>, r: Action) -> bool {
        if no_boundary(p) {
            &&& self.phase() == Phase::Reading
            &&& self.pending() == p
            &&& r is Read
        } else {
            forall|n: int|
                #![trigger is_first_boundary(p, n)]
                is_first_boundary(p, n) ==> {
                    &&& self.pending() == p.subrange(n + 1, p.len() as int)
                    &&& if valid_utf8(line_bytes(p, n)) {
                        &&& self.phase() == Phase::Writing
                        &&& r matches Action::Write(w)
                        &&& bytes_of(w) == line_bytes(p, n) + self.policy().terminator()
                    } else {
                        &&& self.phase() == Phase::Failed(LoopError::Decode(DecodeError::InvalidText))
                        &&& r == Action::Finish(Err(LoopError::Decode(DecodeError::InvalidText)))
                    }
                }
        }
    }

    /// A loop that writes to a sink with terminator policy `eol`, and whose
    /// first action is a read.
    pub fn new(eol: Eol) -> (r: Self)
        ensures
            r.wf(),
            r.phase() == Phase::Reading,
            r.pending() == Seq::<u8>::empty(),
            r.policy() == eol,
    {
        let r = Forwarder {
            decoder: SerialReadCodec::new(),
            encoder: SerialWriteCodec(eol),
            buf: empty_buf(),
            phase: Phase::Reading,
        };
        r
    }

    /// Whether `e` answers the action last asked for.
    pub fn accepts(&self, e: &Event) -> (r: bool)
        ensures
            r == self.awaits(e),
    {
        match self.phase {
            Phase::Reading => match e {
                Event::Received(c) => {
                    let held = held_bytes(&self.buf).len();
                    held < isize::MAX as usize && c.len() < isize::MAX as usize - held
                },
                Event::Closed => true,
                Event::ReadFailed => true,
                _ => false,
            },
            Phase::Writing => match e {
                Event::Written => true,
                Event::WriteFailed => true,
                _ => false,
            },
            _ => false,
        }
    }

    /// Takes the next line out of the accumulator, if there is one.
    fn drain(&mut self) -> (r: Action)
        requires
            old(self).decoder.consistent_with(bytes_of(old(self).buf)),
            bytes_of(old(self).buf).len() < isize::MAX,
        ensures
            final(self).wf(),
            final(self).policy() == old(self).policy(),
            final(self).drains(bytes_of(old(self).buf), r),
    {
        let ghost p = bytes_of(self.buf);
        let res = self.decoder.decode(&mut self.buf);
        match res {
            Ok(None) => {
                proof {
                    if !no_boundary(p) {
                        lemma_first_boundary_exists(p);
                        let n = choose|n: int| is_first_boundary(p, n);
                        assert(is_first_boundary(p, n));
                    }
                }
                self.phase = Phase::Reading;
                Action::Read
            },
            Ok(Some(line)) => {
                proof {
                    lemma_first_boundary_exists(p);
                    let n = choose|n: int| is_first_boundary(p, n);
                    assert(is_first_boundary(p, n));
                    decode_utf8_encode_utf8(line_bytes(p, n));
                }
                let mut out = empty_buf();
                self.encoder.encode(line, &mut out);
                self.phase = Phase::Writing;
                Action::Write(out)
            },
            Err(e) => {
                proof {
                    lemma_first_boundary_exists(p);
                    let n = choose|n: int| is_first_boundary(p, n);
                    assert(is_first_boundary(p, n));
                }
                self.phase = Phase::Failed(LoopError::Decode(e));
                Action::Finish(Err(LoopError::Decode(e)))
            },
        }
    }

    /// Takes the event that answers the last action, and gives the next one.
    ///
    /// A chunk of bytes is appended to the accumulator and a write that
    /// completed lets the next line out; then, if a complete line is there,
    /// its bytes and the terminator are to be written, and otherwise the
    /// next chunk is to be read. The end of the source finishes the loop
    /// with success, dropping what was left unterminated; a failed read or
    /// write finishes it with that error.
    ///
    /// No read is asked for while a line's write is outstanding, nor while a
    /// complete line remains to be written.
    pub fn step(&mut self, event: Event) -> (r: Action)
        requires
            old(self).wf(),
            old(self).awaits(&event),
        ensures
            final(self).wf(),
            final(self).policy() == old(self).policy(),
            match event {
                Event::Received(c) => final(self).drains(old(self).pending() + c@, r),
                Event::Written => final(self).drains(old(self).pending(), r),
                Event::Closed => final(self).phase() == Phase::Closed && r == Action::Finish(
                    Ok(()),
                ),
                Event::ReadFailed => final(self).phase() == Phase::Failed(LoopError::Read) && r
                    == Action::Finish(Err(LoopError::Read)),
                Event::WriteFailed => final(self).phase() == Phase::Failed(LoopError::Write) && r
                    == Action::Finish(Err(LoopError::Write)),
            },
            r is Read ==> final(self).phase() == Phase::Reading && no_boundary(final(self).pending()),
            old(self).phase() == Phase::Writing && !(event is Written) ==> !(r is Read),
    {
        match event {
            Event::Received(c) => {
                let ghost p = bytes_of(self.buf);
                append(&mut self.buf, c.as_slice());
                assert(bytes_of(self.buf).subrange(0, self.decoder.scanned() as int)
                    =~= p.subrange(0, self.decoder.scanned() as int));
                let r = self.drain();
                proof {
                    if !no_boundary(p + c@) {
                        lemma_first_boundary_exists(p + c@);
                    }
                }
                r
            },
            Event::Written => {
                let ghost p = bytes_of(self.buf);
                let r = self.drain();
                proof {
                    if !no_boundary(p) {
                        lemma_first_boundary_exists(p);
                    }
                }
                r
            },
            Event::Closed => {
                self.phase = Phase::Closed;
                Action::Finish(Ok(()))
            },
            Event::ReadFailed => {
                self.phase = Phase::Failed(LoopError::Read);
                Action::Finish(Err(LoopError::Read))
            },
            Event::WriteFailed => {
                self.phase = Phase::Failed(LoopError::Write);
                Action::Finish(Err(LoopError::Write))
            },
        }
    }
}

} // verus!
