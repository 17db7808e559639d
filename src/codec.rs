//! Turning bytes into lines and lines into bytes.
use bytes::BytesMut;
use vstd::prelude::*;
use vstd::utf8::*;

use crate::bytes_buf::{append, bytes_of, held_bytes, split_front};
use crate::eol::{Eol, CR, LF};

verus! {

/// No byte of `b` is a line boundary.
pub open spec fn no_boundary(b: Seq<u8>) -> bool {
    forall|i: int| 0 <= i < b.len() ==> b[i] != LF
}

/// `n` is the offset of the first line boundary in `b`.
pub open spec fn is_first_boundary(b: Seq<u8>, n: int) -> bool {
    &&& 0 <= n < b.len()
    &&& b[n] == LF
    &&& no_boundary(b.subrange(0, n))
}

/// The bytes before a boundary, less one carriage return right before it.
pub open spec fn strip_cr(chunk: Seq<u8>) -> Seq<u8> {
    if chunk.len() > 0 && chunk.last() == CR {
        chunk.drop_last()
    } else {
        chunk
    }
}

/// The bytes of the line that ends at the boundary at offset `n` of `b`.
pub open spec fn line_bytes(b: Seq<u8>, n: int) -> Seq<u8> {
    strip_cr(b.subrange(0, n))
}

/// The bytes that stand for `line` followed by the terminator of `eol`.
pub open spec fn encoded(line: Seq<char>, eol: Eol) -> Seq<u8> {
    encode_utf8(line) + eol.terminator()
}

/// The error of a line whose bytes are not valid UTF-8.
#[derive(Clone, Copy, Debug, PartialEq, Eq, Structural)]
pub enum DecodeError {
    /// The bytes of a line are not valid UTF-8.
    InvalidText,
}

/// Relies on `std::str::from_utf8`: it accepts exactly the valid UTF-8
/// sequences and then gives the text whose encoding is those bytes.
#[verifier::external_body]
fn text_of(v: &[u8]) -> (r: Option<&str>)
    ensures
        r is Some <==> valid_utf8(v@),
        r matches Some(s) ==> encode_utf8(s@) == v@,
{
    match std::str::from_utf8(v) {
        Ok(s) => Some(s),
        Err(_) => None,
    }
}

/// A character other than a line feed encodes to bytes that hold no line
/// feed.
proof fn lemma_scalar_no_boundary(c: char)
    requires
        c != '\n',
    ensures
        no_boundary(encode_scalar(c as u32)),
{
    let v = c as u32;
    char_is_scalar(c);
    if v == 10 {
        char_u32_cast(c, v);
        assert(false);
    }
    assert((v & 0x7F) as u8 != 10u8 || v > 0x7F) by (bit_vector)
        requires
            v != 10,
    ;
    assert((0xC0u8 | ((v >> 6) & 0x1F) as u8) != 10u8) by (bit_vector);
    assert((0xE0u8 | ((v >> 12) & 0x0F) as u8) != 10u8) by (bit_vector);
    assert((0xF0u8 | ((v >> 18) & 0x7) as u8) != 10u8) by (bit_vector);
    assert((0x80u8 | (v & 0x3F) as u8) != 10u8) by (bit_vector);
    assert((0x80u8 | ((v >> 6) & 0x3F) as u8) != 10u8) by (bit_vector);
    assert((0x80u8 | ((v >> 12) & 0x3F) as u8) != 10u8) by (bit_vector);
}

/// Text without a line feed encodes to bytes without a boundary.
proof fn lemma_text_no_boundary(s: Seq<char>)
    requires
        forall|i: int| 0 <= i < s.len() ==> s[i] != '\n',
    ensures
        no_boundary(encode_utf8(s)),
    decreases s.len(),
{
    if s.len() > 0 {
        lemma_scalar_no_boundary(s[0]);
        lemma_text_no_boundary(s.drop_first());
        let a = encode_scalar(s[0] as u32);
        let b = encode_utf8(s.drop_first());
        assert forall|i: int| 0 <= i < (a + b).len() implies (a + b)[i] != LF by {
            if i >= a.len() {
                assert((a + b)[i] == b[i - a.len()]);
            }
        }
    }
}

/// Encoding a line of text without a line feed under the `crlf` policy and
/// decoding the bytes gives the line back: the only boundary is the last
/// byte, and the text before it is valid and decodes to the line.
pub proof fn lemma_round_trip(s: Seq<char>)
    requires
        forall|i: int| 0 <= i < s.len() ==> s[i] != '\n',
    ensures
        is_first_boundary(encoded(s, Eol::Crlf), encoded(s, Eol::Crlf).len() - 1),
        valid_utf8(line_bytes(encoded(s, Eol::Crlf), encoded(s, Eol::Crlf).len() - 1)),
        decode_utf8(line_bytes(encoded(s, Eol::Crlf), encoded(s, Eol::Crlf).len() - 1)) == s,
{
    let e = encode_utf8(s);
    let b = encoded(s, Eol::Crlf);
    let n = b.len() - 1;
    lemma_text_no_boundary(s);
    assert(b.subrange(0, n) =~= e.push(CR));
    assert(b.subrange(0, n).drop_last() =~= e);
    assert forall|i: int| 0 <= i < n implies b.subrange(0, n)[i] != LF by {
        if i < e.len() {
            assert(b.subrange(0, n)[i] == e[i]);
        }
    }
    assert(line_bytes(b, n) == e);
    encode_utf8_valid_utf8(s);
    encode_utf8_decode_utf8(s);
}

/// A buffer that starts with a boundary gives an empty line first.
pub proof fn lemma_boundary_at_start(b: Seq<u8>)
    requires
        b.len() > 0,
        b[0] == LF,
    ensures
        is_first_boundary(b, 0),
        valid_utf8(line_bytes(b, 0)),
        decode_utf8(line_bytes(b, 0)) == Seq::<char>::empty(),
{
    assert(b.subrange(0, 0) =~= Seq::<u8>::empty());
    assert(line_bytes(b, 0) =~= Seq::<u8>::empty());
}

/// A sequence that holds a boundary has a first one.
pub proof fn lemma_first_boundary_exists(b: Seq<u8>)
    requires
        !no_boundary(b),
    ensures
        exists|n: int| is_first_boundary(b, n),
    decreases b.len(),
{
    let front = b.drop_last();
    if no_boundary(front) {
        let i = choose|i: int| 0 <= i < b.len() && b[i] == LF;
        if i < b.len() - 1 {
            assert(front[i] == LF);
        }
        assert(b.subrange(0, b.len() - 1) =~= front);
        assert(is_first_boundary(b, b.len() - 1));
    } else {
        lemma_first_boundary_exists(front);
        let n = choose|n: int| is_first_boundary(front, n);
        assert(b.subrange(0, n) =~= front.subrange(0, n));
        assert(is_first_boundary(b, n));
    }
}

/// Splits the bytes read from a device into lines.
///
/// It remembers how far the accumulator has been searched without finding a
/// boundary, so that each byte is looked at once while a line builds up.
pub struct SerialReadCodec {
    next_index: usize,
}

impl SerialReadCodec {
    /// How many bytes at the front of the accumulator are known to hold no
    /// boundary.
    pub closed spec fn scanned(&self) -> nat {
        self.next_index as nat
    }

    /// The codec's memory agrees with the accumulator `buf`: the accumulator
    /// is the one last handed to `decode`, or that one with bytes appended.
    pub open spec fn consistent_with(&self, buf: Seq<u8>) -> bool {
        &&& self.scanned() <= buf.len()
        &&& no_boundary(buf.subrange(0, self.scanned() as int))
    }

    /// A codec that has searched nothing yet.
    pub fn new() -> (r: Self)
        ensures
            r.scanned() == 0,
            forall|b: Seq<u8>| r.consistent_with(b),
    {
        let r = SerialReadCodec { next_index: 0 };
        assert forall|b: Seq<u8>| r.consistent_with(b) by {
            assert(b.subrange(0, 0) =~= Seq::<u8>::empty());
        }
        r
    }

    /// Takes the first complete line off the front of `src`.
    ///
    /// With no boundary in `src` nothing is consumed and `Ok(None)` comes
    /// back. Otherwise the line and its boundary leave `src`, and the line
    /// comes back without a carriage return that ended it, or an error if
    /// its bytes are not valid text.
    pub fn decode(&mut self, src: &mut BytesMut) -> (r: Result<Option<String>, DecodeError>)
        requires
            old(self).consistent_with(bytes_of(*old(src))),
        ensures
            final(self).consistent_with(bytes_of(*final(src))),
            r matches Ok(Some(line)) ==> no_boundary(encode_utf8(line@)),
            no_boundary(bytes_of(*old(src))) ==> {
                &&& r == Ok::<Option<String>, DecodeError>(None)
                &&& bytes_of(*final(src)) == bytes_of(*old(src))
                &&& final(self).scanned() == bytes_of(*old(src)).len()
            },
            forall|n: int|
                #![trigger is_first_boundary(bytes_of(*old(src)), n)]
                is_first_boundary(bytes_of(*old(src)), n) ==> {
                    &&& bytes_of(*final(src)) == bytes_of(*old(src)).subrange(
                        n + 1,
                        bytes_of(*old(src)).len() as int,
                    )
                    &&& final(self).scanned() == 0
                    &&& valid_utf8(line_bytes(bytes_of(*old(src)), n)) ==> (r matches Ok(Some(
                        line,
                    )) && line@ == decode_utf8(line_bytes(bytes_of(*old(src)), n)))
                    &&& !valid_utf8(line_bytes(bytes_of(*old(src)), n)) ==> r == Err::<
                        Option<String>,
                        DecodeError,
                    >(DecodeError::InvalidText)
                },
    {
        let ghost b = bytes_of(*src);
        let held = held_bytes(src);
        let len = held.len();
        let mut i: usize = self.next_index;
        let mut found = false;
        while i < len && !found
            invariant
                b == held@,
                len == b.len(),
                i <= len,
                no_boundary(b.subrange(0, i as int)),
                found ==> i < len && b[i as int] == LF,
            decreases len - i + (if found { 0int } else { 1int }),
        {
            if held[i] == LF {
                found = true;
            } else {
                assert(b.subrange(0, i + 1) =~= b.subrange(0, i as int).push(b[i as int]));
                i = i + 1;
            }
        }
        if !found {
            self.next_index = len;
            assert(b.subrange(0, len as int) =~= b);
            return Ok(None);
        }
        let n = i;
        assert(is_first_boundary(b, n as int));
        assert forall|m: int| is_first_boundary(b, m) implies m == n by {
            if m < n {
                assert(b.subrange(0, n as int)[m] == b[m]);
            } else if m > n {
                assert(b.subrange(0, m)[n as int] == b[n as int]);
            }
        }
        let line = split_front(src, n + 1);
        self.next_index = 0;
        assert(bytes_of(*src).subrange(0, 0) =~= Seq::<u8>::empty());
        let raw = held_bytes(&line);
        let end: usize = if n > 0 && raw[n - 1] == CR {
            n - 1
        } else {
            n
        };
        let text = &raw[0..end];
        assert(text@ =~= line_bytes(b, n as int));
        match text_of(text) {
            Some(s) => {
                proof {
                    encode_utf8_decode_utf8(s@);
                    assert forall|i: int| 0 <= i < text@.len() implies text@[i] != LF by {
                        assert(text@[i] == b.subrange(0, n as int)[i]);
                    }
                }
                Ok(Some(s.to_owned()))
            },
            None => Err(DecodeError::InvalidText),
        }
    }
}

/// Writes lines to a device, each followed by the terminator of a policy.
pub struct SerialWriteCodec(pub Eol);

impl SerialWriteCodec {
    /// Appends the bytes of `line` and then the terminator to `buf`.
    pub fn encode(&mut self, line: String, buf: &mut BytesMut)
        requires
            bytes_of(*old(buf)).len() + encoded(line@, old(self).0).len() <= isize::MAX,
        ensures
            *final(self) == *old(self),
            bytes_of(*final(buf)) == bytes_of(*old(buf)) + encoded(line@, old(self).0),
    {
        let eol = self.0.bytes();
        append(buf, line.as_str().as_bytes());
        append(buf, eol);
        assert(bytes_of(*buf) =~= bytes_of(*old(buf)) + encoded(line@, self.0));
    }
}

} // verus!
