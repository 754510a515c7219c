//! Protobuf wire encoding of the meta records: length-delimited string
//! fields and varint scalar fields, with a strict decoder that accepts
//! exactly what the encoder writes.
use vstd::prelude::*;

use crate::message::{RpcRequestMeta, RpcResponseMeta};
use crate::varint::{decode_varint, encode_varint, spec_varint, spec_varint_dec};
use crate::CodecError;
use core::marker::PhantomData;
use vstd::string::StrSliceExecFns;
use vstd::utf8::{decode_utf8, encode_utf8, valid_utf8};

verus! {

/// A length-delimited field: tag byte, varint byte count, then the bytes.
pub open spec fn spec_len_field(tag: u8, b: Seq<u8>) -> Seq<u8> {
    seq![tag] + spec_varint(b.len()) + b
}

/// A string field: its UTF-8 bytes, length-delimited.
pub open spec fn spec_str_field(tag: u8, s: Seq<char>) -> Seq<u8> {
    spec_len_field(tag, encode_utf8(s))
}

/// A scalar field: tag byte, then the value as a varint.
pub open spec fn spec_uint_field(tag: u8, v: nat) -> Seq<u8> {
    seq![tag] + spec_varint(v)
}

/// Bytes and consumed length of the length-delimited field at the front of
/// `s`, if one with this tag is fully present.
pub open spec fn spec_dec_len_field(s: Seq<u8>, tag: u8) -> Option<(Seq<u8>, int)> {
    if s.len() == 0 || s[0] != tag {
        None
    } else {
        match spec_varint_dec(s.drop_first()) {
            None => None,
            Some((n, c)) => if 1 + c + n <= s.len() {
                Some((s.subrange(1 + c, 1 + c + n), 1 + c + n))
            } else {
                None
            },
        }
    }
}

/// Characters and consumed length of the string field at the front of `s`.
pub open spec fn spec_dec_str_field(s: Seq<u8>, tag: u8) -> Option<(Seq<char>, int)> {
    match spec_dec_len_field(s, tag) {
        None => None,
        Some((b, c)) => if valid_utf8(b) {
            Some((decode_utf8(b), c))
        } else {
            None
        },
    }
}

/// Value and consumed length of the scalar field at the front of `s`.
pub open spec fn spec_dec_uint_field(s: Seq<u8>, tag: u8) -> Option<(nat, int)> {
    if s.len() == 0 || s[0] != tag {
        None
    } else {
        match spec_varint_dec(s.drop_first()) {
            None => None,
            Some((v, c)) => Some((v, c + 1)),
        }
    }
}

pub proof fn lemma_len_field_round_trip(tag: u8, b: Seq<u8>, rest: Seq<u8>)
    ensures
        spec_dec_len_field(spec_len_field(tag, b) + rest, tag) == Some(
            (b, spec_len_field(tag, b).len() as int),
        ),
{
    let s = spec_len_field(tag, b) + rest;
    crate::varint::lemma_varint_len(b.len());
    assert(s[0] == tag);
    assert(s.drop_first() =~= spec_varint(b.len()) + (b + rest));
    crate::varint::lemma_varint_round_trip(b.len(), b + rest);
    let c = spec_varint(b.len()).len() as int;
    assert(s.subrange(1 + c, 1 + c + b.len()) =~= b);
}

pub proof fn lemma_str_field_round_trip(tag: u8, chars: Seq<char>, rest: Seq<u8>)
    ensures
        spec_dec_str_field(spec_str_field(tag, chars) + rest, tag) == Some(
            (chars, spec_str_field(tag, chars).len() as int),
        ),
{
    lemma_len_field_round_trip(tag, encode_utf8(chars), rest);
    vstd::utf8::encode_utf8_valid_utf8(chars);
    vstd::utf8::encode_utf8_decode_utf8(chars);
}

pub proof fn lemma_uint_field_round_trip(tag: u8, v: nat, rest: Seq<u8>)
    ensures
        spec_dec_uint_field(spec_uint_field(tag, v) + rest, tag) == Some(
            (v, spec_uint_field(tag, v).len() as int),
        ),
{
    let s = spec_uint_field(tag, v) + rest;
    crate::varint::lemma_varint_len(v);
    assert(s[0] == tag);
    assert(s.drop_first() =~= spec_varint(v) + rest);
    crate::varint::lemma_varint_round_trip(v, rest);
}

/// Relies on String::from_utf8: it returns a string exactly when the bytes
/// are valid UTF-8, and that string decodes those bytes.
#[verifier::external_body]
pub(crate) fn string_from_utf8(v: Vec<u8>) -> (r: Option<String>)
    ensures
        r is Some <==> valid_utf8(v@),
        r matches Some(s) ==> s@ == decode_utf8(v@),
{
    String::from_utf8(v).ok()
}

/// Appends a length-delimited string field to `out`.
fn enc_str_field(tag: u8, s: &str, out: &mut Vec<u8>)
    ensures
        final(out)@ == old(out)@ + spec_str_field(tag, s@),
{
    out.push(tag);
    let mut b = s.as_bytes_vec();
    encode_varint(b.len() as u64, out);
    out.append(&mut b);
    proof {
        assert(out@ =~= old(out)@ + spec_str_field(tag, s@));
    }
}

/// Appends a varint scalar field to `out`.
fn enc_uint_field(tag: u8, v: u64, out: &mut Vec<u8>)
    ensures
        final(out)@ == old(out)@ + spec_uint_field(tag, v as nat),
{
    out.push(tag);
    encode_varint(v, out);
    proof {
        assert(out@ =~= old(out)@ + spec_uint_field(tag, v as nat));
    }
}

/// Reads the length-delimited field with this tag at `pos`.
fn dec_len_field(buf: &Vec<u8>, pos: usize, tag: u8) -> (r: Option<(Vec<u8>, usize)>)
    requires
        pos <= buf@.len(),
    ensures
        match r {
            Some((b, end)) => {
                &&& pos < end <= buf@.len()
                &&& spec_dec_len_field(buf@.skip(pos as int), tag) == Some((b@, end - pos))
            },
            None => spec_dec_len_field(buf@.skip(pos as int), tag) is None,
        },
{
    let len = buf.len();
    let ghost s = buf@.skip(pos as int);
    if pos >= len || buf[pos] != tag {
        proof {
            if pos < len {
                assert(s[0] == buf@[pos as int]);
            }
        }
        return None;
    }
    assert(s[0] == buf@[pos as int]);
    proof {
        assert(s.drop_first() =~= buf@.skip(pos as int + 1));
    }
    match decode_varint(buf, pos + 1) {
        None => {
            proof {
                // a length that does not fit in 64 bits cannot fit in the
                // buffer either
                match spec_varint_dec(s.drop_first()) {
                    Some((n, c)) => {
                        crate::varint::lemma_varint_dec_consumed(s.drop_first());
                        assert(n > buf@.len());
                    },
                    None => {},
                }
            }
            None
        },
        Some((n, vend)) => {
            if n > (len - vend) as u64 {
                proof {
                    let c = vend - (pos + 1);
                    assert(spec_varint_dec(s.drop_first()) == Some((n as nat, c)));
                    assert(1 + c + n > s.len());
                }
                return None;
            }
            assert(n as nat <= buf@.len() - vend);
            let n_us = n as usize;
            assert(n_us == n as nat);
            assert(vend + n_us <= buf@.len());
            let mut b: Vec<u8> = Vec::new();
            let mut i: usize = vend;
            while i < vend + n_us
                invariant
                    vend <= i <= vend + n_us,
                    vend + n_us <= usize::MAX,
                    vend + n_us <= buf@.len(),
                    b@ =~= buf@.subrange(vend as int, i as int),
                decreases vend + n_us - i,
            {
                b.push(buf[i]);
                i = i + 1;
            }
            proof {
                assert(b@ =~= s.subrange(
                    1 + (vend - (pos + 1)),
                    1 + (vend - (pos + 1)) + n as int,
                ));
            }
            Some((b, vend + n_us))
        },
    }
}

/// Reads the string field with this tag at `pos`.
fn dec_str_field(buf: &Vec<u8>, pos: usize, tag: u8) -> (r: Option<(String, usize)>)
    requires
        pos <= buf@.len(),
    ensures
        match r {
            Some((out, end)) => {
                &&& pos < end <= buf@.len()
                &&& spec_dec_str_field(buf@.skip(pos as int), tag) == Some((out@, end - pos))
            },
            None => spec_dec_str_field(buf@.skip(pos as int), tag) is None,
        },
{
    match dec_len_field(buf, pos, tag) {
        None => None,
        Some((b, end)) => match string_from_utf8(b) {
            None => None,
            Some(out) => Some((out, end)),
        },
    }
}

/// What a request meta record says, mathematically.
pub ghost struct ReqMetaView {
    pub service_name: Seq<char>,
    pub method_name: Seq<char>,
    pub sequence_id: nat,
    pub compress_type: nat,
}

impl ReqMetaView {
    pub open spec fn wf(self) -> bool {
        self.sequence_id <= u64::MAX && self.compress_type <= u32::MAX
    }
}

/// What a response meta record says, mathematically.
pub ghost struct RespMetaView {
    pub sequence_id: nat,
    pub error_code: nat,
    pub error_text: Seq<char>,
    pub compress_type: nat,
}

impl RespMetaView {
    pub open spec fn wf(self) -> bool {
        self.sequence_id <= u64::MAX && self.error_code <= u32::MAX && self.compress_type
            <= u32::MAX
    }
}

impl View for RpcRequestMeta {
    type V = ReqMetaView;

    open spec fn view(&self) -> ReqMetaView {
        ReqMetaView {
            service_name: self.service_name@,
            method_name: self.method_name@,
            sequence_id: self.sequence_id as nat,
            compress_type: self.compress_type as nat,
        }
    }
}

impl View for RpcResponseMeta {
    type V = RespMetaView;

    open spec fn view(&self) -> RespMetaView {
        RespMetaView {
            sequence_id: self.sequence_id as nat,
            error_code: self.error_code as nat,
            error_text: self.error_text@,
            compress_type: self.compress_type as nat,
        }
    }
}

/// Protobuf wire bytes of a request meta record: service name, method name,
/// sequence id, compression hint, in field order.
pub open spec fn spec_encode_request_meta(v: ReqMetaView) -> Seq<u8> {
    spec_str_field(0x0A, v.service_name) + spec_str_field(0x12, v.method_name) + spec_uint_field(
        0x18,
        v.sequence_id,
    ) + spec_uint_field(0x20, v.compress_type)
}

/// Protobuf wire bytes of a response meta record: sequence id, error code,
/// error text, compression hint, in field order.
pub open spec fn spec_encode_response_meta(v: RespMetaView) -> Seq<u8> {
    spec_uint_field(0x08, v.sequence_id) + spec_uint_field(0x10, v.error_code) + spec_str_field(
        0x1A,
        v.error_text,
    ) + spec_uint_field(0x20, v.compress_type)
}

/// The record whose encoding is exactly `s`, if any.
pub open spec fn spec_decode_request_meta(s: Seq<u8>) -> Option<ReqMetaView> {
    match spec_dec_str_field(s, 0x0A) {
        None => None,
        Some((sn, c1)) => match spec_dec_str_field(s.skip(c1), 0x12) {
            None => None,
            Some((mn, c2)) => match spec_dec_uint_field(s.skip(c1 + c2), 0x18) {
                None => None,
                Some((sid, c3)) => match spec_dec_uint_field(s.skip(c1 + c2 + c3), 0x20) {
                    None => None,
                    Some((ct, c4)) => if sid <= u64::MAX && ct <= u32::MAX && c1 + c2 + c3 + c4
                        == s.len() {
                        Some(
                            ReqMetaView {
                                service_name: sn,
                                method_name: mn,
                                sequence_id: sid,
                                compress_type: ct,
                            },
                        )
                    } else {
                        None
                    },
                },
            },
        },
    }
}

/// The record whose encoding is exactly `s`, if any.
pub open spec fn spec_decode_response_meta(s: Seq<u8>) -> Option<RespMetaView> {
    match spec_dec_uint_field(s, 0x08) {
        None => None,
        Some((sid, c1)) => match spec_dec_uint_field(s.skip(c1), 0x10) {
            None => None,
            Some((ec, c2)) => match spec_dec_str_field(s.skip(c1 + c2), 0x1A) {
                None => None,
                Some((et, c3)) => match spec_dec_uint_field(s.skip(c1 + c2 + c3), 0x20) {
                    None => None,
                    Some((ct, c4)) => if sid <= u64::MAX && ec <= u32::MAX && ct <= u32::MAX && c1
                        + c2 + c3 + c4 == s.len() {
                        Some(
                            RespMetaView {
                                sequence_id: sid,
                                error_code: ec,
                                error_text: et,
                                compress_type: ct,
                            },
                        )
                    } else {
                        None
                    },
                },
            },
        },
    }
}

/// Decoding a request meta record undoes encoding it.
pub proof fn lemma_request_meta_round_trip(v: ReqMetaView)
    requires
        v.wf(),
    ensures
        spec_decode_request_meta(spec_encode_request_meta(v)) == Some(v),
{
    let f1 = spec_str_field(0x0A, v.service_name);
    let f2 = spec_str_field(0x12, v.method_name);
    let f3 = spec_uint_field(0x18, v.sequence_id);
    let f4 = spec_uint_field(0x20, v.compress_type);
    let s = spec_encode_request_meta(v);
    assert(s =~= f1 + (f2 + f3 + f4));
    lemma_str_field_round_trip(0x0A, v.service_name, f2 + f3 + f4);
    assert(s.skip(f1.len() as int) =~= f2 + (f3 + f4));
    lemma_str_field_round_trip(0x12, v.method_name, f3 + f4);
    assert(s.skip((f1.len() + f2.len()) as int) =~= f3 + f4);
    lemma_uint_field_round_trip(0x18, v.sequence_id, f4);
    assert(s.skip((f1.len() + f2.len() + f3.len()) as int) =~= f4 + Seq::<u8>::empty());
    lemma_uint_field_round_trip(0x20, v.compress_type, Seq::<u8>::empty());
    assert(s.len() == f1.len() + f2.len() + f3.len() + f4.len());
}

/// Decoding a response meta record undoes encoding it.
pub proof fn lemma_response_meta_round_trip(v: RespMetaView)
    requires
        v.wf(),
    ensures
        spec_decode_response_meta(spec_encode_response_meta(v)) == Some(v),
{
    let f1 = spec_uint_field(0x08, v.sequence_id);
    let f2 = spec_uint_field(0x10, v.error_code);
    let f3 = spec_str_field(0x1A, v.error_text);
    let f4 = spec_uint_field(0x20, v.compress_type);
    let s = spec_encode_response_meta(v);
    assert(s =~= f1 + (f2 + f3 + f4));
    lemma_uint_field_round_trip(0x08, v.sequence_id, f2 + f3 + f4);
    assert(s.skip(f1.len() as int) =~= f2 + (f3 + f4));
    lemma_uint_field_round_trip(0x10, v.error_code, f3 + f4);
    assert(s.skip((f1.len() + f2.len()) as int) =~= f3 + f4);
    lemma_str_field_round_trip(0x1A, v.error_text, f4);
    assert(s.skip((f1.len() + f2.len() + f3.len()) as int) =~= f4 + Seq::<u8>::empty());
    lemma_uint_field_round_trip(0x20, v.compress_type, Seq::<u8>::empty());
    assert(s.len() == f1.len() + f2.len() + f3.len() + f4.len());
}

/// Serializes a request meta record.
pub fn encode_request_meta(meta: &RpcRequestMeta) -> (r: Vec<u8>)
    ensures
        r@ == spec_encode_request_meta(meta@),
{
    let mut out: Vec<u8> = Vec::new();
    enc_str_field(0x0A, meta.service_name.as_str(), &mut out);
    enc_str_field(0x12, meta.method_name.as_str(), &mut out);
    enc_uint_field(0x18, meta.sequence_id, &mut out);
    enc_uint_field(0x20, meta.compress_type as u64, &mut out);
    proof {
        assert(out@ =~= spec_encode_request_meta(meta@));
    }
    out
}

/// Serializes a response meta record.
pub fn encode_response_meta(meta: &RpcResponseMeta) -> (r: Vec<u8>)
    ensures
        r@ == spec_encode_response_meta(meta@),
{
    let mut out: Vec<u8> = Vec::new();
    enc_uint_field(0x08, meta.sequence_id, &mut out);
    enc_uint_field(0x10, meta.error_code as u64, &mut out);
    enc_str_field(0x1A, meta.error_text.as_str(), &mut out);
    enc_uint_field(0x20, meta.compress_type as u64, &mut out);
    proof {
        assert(out@ =~= spec_encode_response_meta(meta@));
    }
    out
}

/// Parses a buffer that must hold exactly one request meta record.
pub fn decode_request_meta(buf: &Vec<u8>) -> (r: Option<RpcRequestMeta>)
    ensures
        match r {
            Some(m) => spec_decode_request_meta(buf@) == Some(m@),
            None => spec_decode_request_meta(buf@) is None,
        },
{
    let ghost s = buf@;
    proof {
        assert(s.skip(0) =~= s);
    }
    let (service_name, p1) = match dec_str_field(buf, 0, 0x0A) {
        None => {
            return None;
        },
        Some(x) => x,
    };
    let (method_name, p2) = match dec_str_field(buf, p1, 0x12) {
        None => {
            return None;
        },
        Some(x) => x,
    };
    let (sequence_id, p3) = match dec_uint_field(buf, p2, 0x18) {
        None => {
            return None;
        },
        Some(x) => x,
    };
    let (compress, p4) = match dec_uint_field(buf, p3, 0x20) {
        None => {
            return None;
        },
        Some(x) => x,
    };
    if compress > u32::MAX as u64 || p4 != buf.len() {
        return None;
    }
    Some(
        RpcRequestMeta {
            service_name,
            method_name,
            sequence_id,
            compress_type: compress as u32,
        },
    )
}

/// Parses a buffer that must hold exactly one response meta record.
pub fn decode_response_meta(buf: &Vec<u8>) -> (r: Option<RpcResponseMeta>)
    ensures
        match r {
            Some(m) => spec_decode_response_meta(buf@) == Some(m@),
            None => spec_decode_response_meta(buf@) is None,
        },
{
    let ghost s = buf@;
    proof {
        assert(s.skip(0) =~= s);
    }
    let (sequence_id, p1) = match dec_uint_field(buf, 0, 0x08) {
        None => {
            return None;
        },
        Some(x) => x,
    };
    let (error_code, p2) = match dec_uint_field(buf, p1, 0x10) {
        None => {
            return None;
        },
        Some(x) => x,
    };
    let (error_text, p3) = match dec_str_field(buf, p2, 0x1A) {
        None => {
            return None;
        },
        Some(x) => x,
    };
    let (compress, p4) = match dec_uint_field(buf, p3, 0x20) {
        None => {
            return None;
        },
        Some(x) => x,
    };
    if error_code > u32::MAX as u64 || compress > u32::MAX as u64 || p4 != buf.len() {
        return None;
    }
    Some(
        RpcResponseMeta {
            sequence_id,
            error_code: error_code as u32,
            error_text,
            compress_type: compress as u32,
        },
    )
}

/// Reads the scalar field with this tag at `pos`; `None` also when the value
/// does not fit in 64 bits.
fn dec_uint_field(buf: &Vec<u8>, pos: usize, tag: u8) -> (r: Option<(u64, usize)>)
    requires
        pos <= buf@.len(),
    ensures
        match r {
            Some((v, end)) => {
                &&& pos < end <= buf@.len()
                &&& spec_dec_uint_field(buf@.skip(pos as int), tag) == Some((v as nat, end - pos))
            },
            None => match spec_dec_uint_field(buf@.skip(pos as int), tag) {
                None => true,
                Some((v, _)) => v > u64::MAX,
            },
        },
{
    let len = buf.len();
    let ghost s = buf@.skip(pos as int);
    if pos >= len || buf[pos] != tag {
        return None;
    }
    assert(s[0] == tag);
    proof {
        assert(s.drop_first() =~= buf@.skip(pos as int + 1));
    }
    match decode_varint(buf, pos + 1) {
        None => None,
        Some((v, end)) => Some((v, end)),
    }
}

/// A typed payload message with a protobuf wire form.
pub trait PbMessage: View + Sized {
    /// Wire bytes of a message with this mathematical content.
    spec fn pb_enc(v: Self::V) -> Seq<u8>;

    /// The content whose wire form is exactly `s`, if any.
    spec fn pb_dec(s: Seq<u8>) -> Option<Self::V>;

    /// Decoding undoes encoding.
    proof fn pb_round_trip(v: Self::V)
        ensures
            Self::pb_dec(Self::pb_enc(v)) == Some(v),
    ;

    fn encode_pb(&self) -> (r: Vec<u8>)
        ensures
            r@ == Self::pb_enc(self@),
    ;

    fn decode_pb(buf: &Vec<u8>) -> (r: Option<Self>)
        ensures
            match r {
                Some(m) => Self::pb_dec(buf@) == Some(m@),
                None => Self::pb_dec(buf@) is None,
            },
    ;
}

/// A message holding one text field.
#[derive(Clone, Debug)]
pub struct StringMessage {
    pub msg: String,
}

impl StringMessage {
    pub fn new() -> (r: Self)
        ensures
            r.msg@ == Seq::<char>::empty(),
    {
        StringMessage { msg: String::new() }
    }

    pub fn set_msg(&mut self, msg: String)
        ensures
            final(self).msg == msg,
    {
        self.msg = msg;
    }

    pub fn get_msg(&self) -> (r: &String)
        ensures
            r == self.msg,
    {
        &self.msg
    }
}

impl View for StringMessage {
    type V = Seq<char>;

    open spec fn view(&self) -> Seq<char> {
        self.msg@
    }
}

impl PbMessage for StringMessage {
    open spec fn pb_enc(v: Seq<char>) -> Seq<u8> {
        spec_str_field(0x0A, v)
    }

    open spec fn pb_dec(s: Seq<u8>) -> Option<Seq<char>> {
        match spec_dec_str_field(s, 0x0A) {
            None => None,
            Some((chars, c)) => if c == s.len() {
                Some(chars)
            } else {
                None
            },
        }
    }

    proof fn pb_round_trip(v: Seq<char>) {
        assert(Self::pb_enc(v) =~= spec_str_field(0x0A, v) + Seq::<u8>::empty());
        lemma_str_field_round_trip(0x0A, v, Seq::<u8>::empty());
    }

    fn encode_pb(&self) -> (r: Vec<u8>) {
        let mut out: Vec<u8> = Vec::new();
        enc_str_field(0x0A, self.msg.as_str(), &mut out);
        proof {
            assert(out@ =~= Self::pb_enc(self@));
        }
        out
    }

    fn decode_pb(buf: &Vec<u8>) -> (r: Option<Self>) {
        proof {
            assert(buf@.skip(0) =~= buf@);
        }
        match dec_str_field(buf, 0, 0x0A) {
            None => None,
            Some((msg, end)) => if end == buf.len() {
                Some(StringMessage { msg })
            } else {
                None
            },
        }
    }
}

/// A message with no fields.
#[derive(Clone, Copy, Debug, PartialEq, Eq, Structural)]
pub struct Empty {
}

impl Empty {
    pub fn new() -> (r: Self)
        ensures
            r == (Empty {  }),
    {
        Empty {  }
    }
}

impl View for Empty {
    type V = Empty;

    open spec fn view(&self) -> Empty {
        *self
    }
}

impl PbMessage for Empty {
    open spec fn pb_enc(v: Empty) -> Seq<u8> {
        Seq::<u8>::empty()
    }

    open spec fn pb_dec(s: Seq<u8>) -> Option<Empty> {
        if s.len() == 0 {
            Some(Empty {  })
        } else {
            None
        }
    }

    proof fn pb_round_trip(v: Empty) {
    }

    fn encode_pb(&self) -> (r: Vec<u8>) {
        let out: Vec<u8> = Vec::new();
        proof {
            assert(out@ =~= Self::pb_enc(self@));
        }
        out
    }

    fn decode_pb(buf: &Vec<u8>) -> (r: Option<Self>) {
        if buf.len() == 0 {
            Some(Empty {  })
        } else {
            None
        }
    }
}

/// A codec turns bytes into one typed message and another typed message
/// into bytes; `Request` is what `decode` yields, `Response` is what
/// `encode` takes, so one codec serves one direction of one method.
pub trait MethodCodec: Sized {
    type Request: View;

    type Response: View;

    /// The request content whose wire form is exactly `s`, if any.
    spec fn dec_spec(s: Seq<u8>) -> Option<<Self::Request as View>::V>;

    /// Wire bytes of a response with this content.
    spec fn enc_spec(v: <Self::Response as View>::V) -> Seq<u8>;

    fn decode(&self, buf: &Vec<u8>) -> (r: Result<Self::Request, CodecError>)
        ensures
            match r {
                Ok(m) => Self::dec_spec(buf@) == Some(m@),
                Err(_) => Self::dec_spec(buf@) is None,
            },
    ;

    fn encode(&self, m: &Self::Response) -> (r: Result<Vec<u8>, CodecError>)
        ensures
            r matches Ok(v) && v@ == Self::enc_spec(m@),
    ;
}

/// The provided codec: protobuf wire format for both directions.
pub struct ProtobufCodec<R, Q> {
    marker: PhantomData<(R, Q)>,
}

impl<R, Q> ProtobufCodec<R, Q> {
    /// The one value of this stateless codec type.
    pub closed spec fn spec_new() -> Self {
        ProtobufCodec { marker: PhantomData }
    }

    pub fn new() -> (r: Self)
        ensures
            r == Self::spec_new(),
    {
        ProtobufCodec { marker: PhantomData }
    }
}

impl<R, Q> Clone for ProtobufCodec<R, Q> {
    /// A codec is stateless, so a clone is a fresh one.
    fn clone(&self) -> (r: Self)
        ensures
            r == Self::spec_new(),
    {
        ProtobufCodec { marker: PhantomData }
    }
}

impl<R: PbMessage, Q: PbMessage> MethodCodec for ProtobufCodec<R, Q> {
    type Request = R;

    type Response = Q;

    open spec fn dec_spec(s: Seq<u8>) -> Option<R::V> {
        R::pb_dec(s)
    }

    open spec fn enc_spec(v: Q::V) -> Seq<u8> {
        Q::pb_enc(v)
    }

    fn decode(&self, buf: &Vec<u8>) -> (r: Result<R, CodecError>) {
        match R::decode_pb(buf) {
            Some(m) => Ok(m),
            None => Err(CodecError),
        }
    }

    fn encode(&self, m: &Q) -> (r: Result<Vec<u8>, CodecError>) {
        Ok(m.encode_pb())
    }
}

} // verus!
