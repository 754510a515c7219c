//! The binary wire protocol: length-prefixed frames carrying a meta record
//! and an opaque body, and the prefix test that tells protocols apart on a
//! fresh connection. A parser never commits bytes it has not validated.
use vstd::prelude::*;

use crate::varint::{decode_u32_be, encode_u32_be, spec_u32_be, spec_u32_of_be};

verus! {

/// The magic word `PRPC` that opens every binary frame.
pub open spec fn spec_magic() -> Seq<u8> {
    seq![0x50u8, 0x52u8, 0x50u8, 0x43u8]
}

/// A complete wire frame: magic, body length, meta length (both big-endian),
/// then the meta record before the body.
pub open spec fn spec_frame(meta: Seq<u8>, body: Seq<u8>) -> Seq<u8> {
    spec_magic() + spec_u32_be(body.len() as u32) + spec_u32_be(meta.len() as u32) + meta + body
}

/// What a parse attempt can say, mathematically.
pub ghost enum SpecParse {
    /// More bytes must arrive before anything can be decided.
    Incomplete,
    /// A full frame: meta bytes, body bytes, bytes consumed.
    Frame(Seq<u8>, Seq<u8>, int),
    /// The bytes can never begin a valid frame under this size limit.
    Malformed,
}

/// The verdict on a buffer: strict magic check, then the size limit, then
/// completeness.
pub open spec fn spec_try_parse(s: Seq<u8>, max_frame: u32) -> SpecParse {
    if s.len() < 4 {
        if s == spec_magic().take(s.len() as int) {
            SpecParse::Incomplete
        } else {
            SpecParse::Malformed
        }
    } else if s.subrange(0, 4) != spec_magic() {
        SpecParse::Malformed
    } else if s.len() < 12 {
        SpecParse::Incomplete
    } else {
        let body_len = spec_u32_of_be(s[4], s[5], s[6], s[7]) as int;
        let meta_len = spec_u32_of_be(s[8], s[9], s[10], s[11]) as int;
        if 12 + meta_len + body_len > max_frame {
            SpecParse::Malformed
        } else if s.len() < 12 + meta_len + body_len {
            SpecParse::Incomplete
        } else {
            SpecParse::Frame(
                s.subrange(12, 12 + meta_len),
                s.subrange(12 + meta_len, 12 + meta_len + body_len),
                12 + meta_len + body_len,
            )
        }
    }
}

/// What a parse attempt says to the caller.
pub enum ParseOutcome {
    /// Await more bytes.
    Incomplete,
    /// A full frame: meta bytes, body bytes, bytes consumed.
    Frame(Vec<u8>, Vec<u8>, usize),
    /// Close the connection.
    Malformed,
}

/// Copies `buf[from..to]` into a fresh vector.
pub(crate) fn copy_range(buf: &Vec<u8>, from: usize, to: usize) -> (r: Vec<u8>)
    requires
        from <= to <= buf@.len(),
    ensures
        r@ == buf@.subrange(from as int, to as int),
{
    let mut out: Vec<u8> = Vec::new();
    let mut i: usize = from;
    while i < to
        invariant
            from <= i <= to,
            to <= buf@.len(),
            out@ =~= buf@.subrange(from as int, i as int),
        decreases to - i,
    {
        out.push(buf[i]);
        i = i + 1;
    }
    proof {
        assert(out@ =~= buf@.subrange(from as int, to as int));
    }
    out
}

/// One byte of the magic word.
fn magic_byte(i: usize) -> (r: u8)
    requires
        i < 4,
    ensures
        r == spec_magic()[i as int],
{
    if i == 0 {
        0x50
    } else if i == 1 {
        0x52
    } else if i == 2 {
        0x50
    } else {
        0x43
    }
}

/// Examines the front of the read buffer. Never commits bytes of an
/// incomplete frame; a frame over `max_frame` bytes, or bytes that do not
/// open with the magic word, are malformed.
pub fn try_parse(buf: &Vec<u8>, max_frame: u32) -> (r: ParseOutcome)
    ensures
        match r {
            ParseOutcome::Incomplete => spec_try_parse(buf@, max_frame) is Incomplete,
            ParseOutcome::Malformed => spec_try_parse(buf@, max_frame) is Malformed,
            ParseOutcome::Frame(m, b, c) => spec_try_parse(buf@, max_frame) == SpecParse::Frame(
                m@,
                b@,
                c as int,
            ),
        },
{
    let len = buf.len();
    let mut i: usize = 0;
    let check = if len < 4 {
        len
    } else {
        4
    };
    while i < check
        invariant
            0 <= i <= check,
            check <= 4,
            check <= buf@.len(),
            forall|j: int| 0 <= j < i ==> buf@[j] == spec_magic()[j],
        decreases check - i,
    {
        if buf[i] != magic_byte(i) {
            proof {
                if buf@.len() < 4 {
                    assert(spec_magic().take(buf@.len() as int)[i as int] == spec_magic()[
                        i as int
                    ]);
                    assert(buf@ != spec_magic().take(buf@.len() as int));
                } else {
                    assert(buf@.subrange(0, 4)[i as int] == buf@[i as int]);
                    assert(buf@.subrange(0, 4) != spec_magic());
                }
            }
            return ParseOutcome::Malformed;
        }
        i = i + 1;
    }
    if len < 4 {
        proof {
            assert(buf@ =~= spec_magic().take(buf@.len() as int));
        }
        return ParseOutcome::Incomplete;
    }
    proof {
        assert(buf@.subrange(0, 4) =~= spec_magic());
    }
    if len < 12 {
        return ParseOutcome::Incomplete;
    }
    let body_len = decode_u32_be(buf, 4);
    let meta_len = decode_u32_be(buf, 8);
    let total: u64 = 12u64 + meta_len as u64 + body_len as u64;
    if total > max_frame as u64 {
        return ParseOutcome::Malformed;
    }
    if (len as u64) < total {
        return ParseOutcome::Incomplete;
    }
    let meta_end = 12 + meta_len as usize;
    let frame_end = meta_end + body_len as usize;
    let meta = copy_range(buf, 12, meta_end);
    let body = copy_range(buf, meta_end, frame_end);
    ParseOutcome::Frame(meta, body, frame_end)
}

/// Appends one complete frame to `out`.
pub fn write_frame(meta: &Vec<u8>, body: &Vec<u8>, out: &mut Vec<u8>)
    requires
        meta@.len() <= u32::MAX,
        body@.len() <= u32::MAX,
        old(out)@.len() + 12 + meta@.len() + body@.len() <= usize::MAX,
    ensures
        final(out)@ == old(out)@ + spec_frame(meta@, body@),
{
    out.push(0x50);
    out.push(0x52);
    out.push(0x50);
    out.push(0x43);
    encode_u32_be(body.len() as u32, out);
    encode_u32_be(meta.len() as u32, out);
    let mut i: usize = 0;
    let ghost mid = out@;
    while i < meta.len()
        invariant
            0 <= i <= meta@.len(),
            out@ =~= mid + meta@.take(i as int),
        decreases meta@.len() - i,
    {
        out.push(meta[i]);
        i = i + 1;
    }
    let ghost mid2 = out@;
    let mut j: usize = 0;
    while j < body.len()
        invariant
            0 <= j <= body@.len(),
            out@ =~= mid2 + body@.take(j as int),
        decreases body@.len() - j,
    {
        out.push(body[j]);
        j = j + 1;
    }
    proof {
        assert(out@ =~= old(out)@ + spec_frame(meta@, body@));
    }
}

/// Parsing undoes framing: the frame comes back whole, whatever follows it.
pub proof fn lemma_frame_round_trip(meta: Seq<u8>, body: Seq<u8>, rest: Seq<u8>, max_frame: u32)
    requires
        meta.len() <= u32::MAX,
        body.len() <= u32::MAX,
        12 + meta.len() + body.len() <= max_frame,
    ensures
        spec_try_parse(spec_frame(meta, body) + rest, max_frame) == SpecParse::Frame(
            meta,
            body,
            12 + meta.len() + body.len() as int,
        ),
{
    let s = spec_frame(meta, body) + rest;
    assert(s.subrange(0, 4) =~= spec_magic());
    crate::varint::lemma_u32_be_round_trip(body.len() as u32);
    crate::varint::lemma_u32_be_round_trip(meta.len() as u32);
    assert(s[4] == spec_u32_be(body.len() as u32)[0]);
    assert(s[5] == spec_u32_be(body.len() as u32)[1]);
    assert(s[6] == spec_u32_be(body.len() as u32)[2]);
    assert(s[7] == spec_u32_be(body.len() as u32)[3]);
    assert(s[8] == spec_u32_be(meta.len() as u32)[0]);
    assert(s[9] == spec_u32_be(meta.len() as u32)[1]);
    assert(s[10] == spec_u32_be(meta.len() as u32)[2]);
    assert(s[11] == spec_u32_be(meta.len() as u32)[3]);
    assert(s.subrange(12, 12 + meta.len() as int) =~= meta);
    assert(s.subrange(12 + meta.len() as int, (12 + meta.len() + body.len()) as int) =~= body);
}

/// An over-long frame is rejected before anything is read from it: a header
/// whose body length alone exceeds the limit is malformed, never a frame
/// and never a wait for more bytes.
pub proof fn lemma_frame_size_limit(s: Seq<u8>, max_frame: u32)
    requires
        s.len() >= 12,
        s.subrange(0, 4) == spec_magic(),
        spec_u32_of_be(s[4], s[5], s[6], s[7]) > max_frame,
    ensures
        spec_try_parse(s, max_frame) is Malformed,
{
}

/// Protocols that can share the listening socket.
#[derive(Clone, Copy, Debug, PartialEq, Eq, Structural)]
pub enum DetectedProtocol {
    Binary,
    Http,
}

/// What peeking at a fresh connection can say.
#[derive(Clone, Copy, Debug, PartialEq, Eq, Structural)]
pub enum DetectOutcome {
    /// Fewer than four bytes have arrived.
    NeedMore,
    /// The prefix picked a protocol, latched for the connection's lifetime.
    Chosen(DetectedProtocol),
    /// No known protocol starts like this; close the connection.
    Unknown,
}

/// True when the four bytes open an HTTP/1.1 request we route: the verbs
/// GET, PUT, POST, HEAD, DELETE, OPTIONS.
pub open spec fn spec_is_http_prefix(a: u8, b: u8, c: u8, d: u8) -> bool {
    ||| (a == 0x47 && b == 0x45 && c == 0x54 && d == 0x20)  // "GET "
    ||| (a == 0x50 && b == 0x55 && c == 0x54 && d == 0x20)  // "PUT "
    ||| (a == 0x50 && b == 0x4F && c == 0x53 && d == 0x54)  // "POST"
    ||| (a == 0x48 && b == 0x45 && c == 0x41 && d == 0x44)  // "HEAD"
    ||| (a == 0x44 && b == 0x45 && c == 0x4C && d == 0x45)  // "DELE"
    ||| (a == 0x4F && b == 0x50 && c == 0x54 && d == 0x49)  // "OPTI"
}

/// The verdict on a peeked prefix: the magic word picks the binary
/// protocol, an HTTP verb picks HTTP, anything else is unknown.
pub open spec fn spec_detect(s: Seq<u8>) -> DetectOutcome {
    if s.len() < 4 {
        DetectOutcome::NeedMore
    } else if s.subrange(0, 4) == spec_magic() {
        DetectOutcome::Chosen(DetectedProtocol::Binary)
    } else if spec_is_http_prefix(s[0], s[1], s[2], s[3]) {
        DetectOutcome::Chosen(DetectedProtocol::Http)
    } else {
        DetectOutcome::Unknown
    }
}

/// Picks the protocol for a fresh connection from its first bytes.
pub fn detect_protocol(buf: &Vec<u8>) -> (r: DetectOutcome)
    ensures
        r == spec_detect(buf@),
{
    if buf.len() < 4 {
        return DetectOutcome::NeedMore;
    }
    let a = buf[0];
    let b = buf[1];
    let c = buf[2];
    let d = buf[3];
    if a == 0x50 && b == 0x52 && c == 0x50 && d == 0x43 {
        proof {
            assert(buf@.subrange(0, 4) =~= spec_magic());
        }
        return DetectOutcome::Chosen(DetectedProtocol::Binary);
    }
    proof {
        assert(buf@.subrange(0, 4)[0] == a);
        assert(buf@.subrange(0, 4)[1] == b);
        assert(buf@.subrange(0, 4)[2] == c);
        assert(buf@.subrange(0, 4)[3] == d);
    }
    if (a == 0x47 && b == 0x45 && c == 0x54 && d == 0x20) || (a == 0x50 && b == 0x55 && c == 0x54
        && d == 0x20) || (a == 0x50 && b == 0x4F && c == 0x53 && d == 0x54) || (a == 0x48 && b
        == 0x45 && c == 0x41 && d == 0x44) || (a == 0x44 && b == 0x45 && c == 0x4C && d == 0x45)
        || (a == 0x4F && b == 0x50 && c == 0x54 && d == 0x49) {
        return DetectOutcome::Chosen(DetectedProtocol::Http);
    }
    DetectOutcome::Unknown
}

} // verus!
