//! Types that bind a typed stub to a channel: issue a call, and resolve the
//! correlated reply into a typed response plus call feedback.
use vstd::prelude::*;

use crate::channel::{CallHandle, Channel};
use crate::codec::{
    spec_decode_request_meta, spec_encode_request_meta, MethodCodec, PbMessage, ReqMetaView,
    RespMetaView, spec_decode_response_meta, spec_encode_response_meta,
};
use crate::load_balancer::{spec_choice, CallInfo};
use crate::message::{RpcRequestMeta, RpcResponseMeta};
use crate::protocol::{spec_frame, spec_try_parse, SpecParse};
use crate::service::MethodError;

verus! {

/// How the RPC request was processed; carried beside every typed response.
#[derive(Clone, Copy, Debug, PartialEq, Eq, Structural)]
pub struct RpcInfo;

/// Splits a reply package on its error code: a clean reply yields its body,
/// any other becomes the structured server error it reported.
pub fn errno_to_result(result: (RpcResponseMeta, Vec<u8>)) -> (r: Result<Vec<u8>, MethodError>)
    ensures
        result.0.error_code == 0 ==> r == Ok::<Vec<u8>, MethodError>(result.1),
        result.0.error_code != 0 ==> r == Err::<Vec<u8>, MethodError>(
            MethodError::ServerError(result.0.error_code, result.0.error_text),
        ),
{
    let (meta, body) = result;
    let error_code = meta.get_error_code();
    if error_code == 0 {
        Ok(body)
    } else {
        Err(MethodError::ServerError(error_code, meta.error_text))
    }
}

/// Binds a codec to one method's calls over a channel.
pub struct RpcWrapper<C> {
    pub codec: C,
}

impl<C: MethodCodec + Clone> RpcWrapper<C> {
    /// A binding from a codec.
    pub fn new(codec: C) -> (r: Self)
        ensures
            r == (RpcWrapper { codec }),
    {
        RpcWrapper { codec }
    }

    /// Issues one request: encodes it, submits it on the channel, and hands
    /// back the future plus the framed bytes the driver must write. A
    /// submission failure leaves a future that resolves to that error.
    pub fn call(
        &self,
        channel: &mut Channel,
        bundle: (C::Response, String, String),
        now: u64,
        entropy: u64,
    ) -> (r: (StubFuture<C>, Option<Vec<u8>>))
        requires
            old(channel).wf(),
        ensures
            final(channel).wf(),
            old(channel).in_flight >= old(channel).max_concurrency ==> (r.0.error matches Some(
                e,
            ) && e is ChannelConcurrencyLimited && r.1 is None),
            r.1 matches Some(frame) ==> {
                &&& r.0.inner matches Some(h)
                &&& r.0.error is None
                &&& r.0.start_usec == now
                &&& final(channel).conns@[h.conn as int].pending@ == old(channel).conns@[
                    h.conn as int
                ].pending@.push(h.seq)
                &&& frame@ == spec_frame(
                    spec_encode_request_meta(
                        ReqMetaView {
                            service_name: bundle.1@,
                            method_name: bundle.2@,
                            sequence_id: h.seq as nat,
                            compress_type: 0,
                        },
                    ),
                    C::enc_spec(bundle.0@),
                )
            },
            r.1 is None ==> r.0.inner is None && r.0.error is Some && final(channel).in_flight
                == old(channel).in_flight,
            // a refusal leaves every pending call in place
            r.1 is None ==> final(channel).conns@ == old(channel).conns@,
            r.1 is None ==> final(channel).max_concurrency == old(channel).max_concurrency,
            // success is owed whenever the channel has room, a backend is
            // selectable, its id space is not spent, and the request fits
            (old(channel).in_flight < old(channel).max_concurrency && (match spec_choice(
                old(channel).lb,
                now,
                entropy,
            ) {
                Some(c) => old(channel).conns@[c].next_seq < u64::MAX && ({
                    let m = spec_encode_request_meta(
                        ReqMetaView {
                            service_name: bundle.1@,
                            method_name: bundle.2@,
                            sequence_id: old(channel).conns@[c].next_seq as nat,
                            compress_type: 0,
                        },
                    );
                    m.len() <= u32::MAX && C::enc_spec(bundle.0@).len() <= u32::MAX && 12 + m.len()
                        + C::enc_spec(bundle.0@).len() <= usize::MAX
                }),
                None => false,
            })) ==> r.1 is Some,
    {
        let (req, service_name, method_name) = bundle;
        let body = match self.codec.encode(&req) {
            Ok(b) => b,
            Err(_) => {
                // the codec promises encoding succeeds; this arm is for the
                // trait's shape only
                return (
                    StubFuture {
                        start_usec: now,
                        inner: None,
                        error: Some(MethodError::CodecError),
                        codec: self.codec.clone(),
                    },
                    None,
                );
            },
        };
        let mut meta = RpcRequestMeta::new();
        meta.set_service_name(service_name);
        meta.set_method_name(method_name);
        match channel.call(&meta, &body, now, entropy) {
            Ok((handle, frame)) => (
                StubFuture {
                    start_usec: now,
                    inner: Some(handle),
                    error: None,
                    codec: self.codec.clone(),
                },
                Some(frame),
            ),
            Err(e) => (
                StubFuture { start_usec: now, inner: None, error: Some(e), codec: self.codec.clone() },
                None,
            ),
        }
    }
}

/// A call in flight: resolves to a typed response and an `RpcInfo` once the
/// channel delivers the correlated reply package.
pub struct StubFuture<C> {
    pub start_usec: u64,
    pub inner: Option<CallHandle>,
    pub error: Option<MethodError>,
    pub codec: C,
}

impl<C> StubFuture<C> {
    /// A future over an issued call, or over nothing when submission never
    /// happened.
    pub fn new(inner: Option<CallHandle>, codec: C) -> (r: Self)
        ensures
            r.inner == inner,
            r.error is None,
            r.start_usec == 0,
            r.codec == codec,
    {
        StubFuture { start_usec: 0, inner, error: None, codec }
    }
}

impl<C: MethodCodec> StubFuture<C> {
    /// Resolves the future for a call whose connection dropped before its
    /// reply: it fails with a connection-lost error — unless submission had
    /// already failed, whose error stands — and the feedback reports that
    /// failure.
    pub fn poll_connection_lost(self) -> (r: (
        Result<(C::Request, RpcInfo), MethodError>,
        CallInfo,
    ))
        ensures
            self.error matches Some(e) ==> r.0 == Err::<(C::Request, RpcInfo), MethodError>(e),
            self.error is None ==> (r.0 matches Err(e) && e is ConnectionLost),
            r.1.start_usec == self.start_usec,
            r.1.error is Some,
    {
        match self.error {
            Some(e) => {
                let info = CallInfo::new(self.start_usec, Some(e.clone()));
                (Err(e), info)
            },
            None => (
                Err(MethodError::ConnectionLost),
                CallInfo::new(self.start_usec, Some(MethodError::ConnectionLost)),
            ),
        }
    }

    /// Dropping the future cancels its call: the pending entry leaves the
    /// channel and the in-flight slot is freed, at most once; no frame is
    /// written. True exactly when a pending call was released.
    pub fn cancel(self, channel: &mut Channel) -> (r: bool)
        requires
            old(channel).wf(),
        ensures
            final(channel).wf(),
            final(channel).conns@.len() == old(channel).conns@.len(),
            self.inner is None ==> !r && *final(channel) == *old(channel),
            self.inner matches Some(h) ==> if h.conn >= old(channel).conns@.len() {
                !r && *final(channel) == *old(channel)
            } else {
                &&& (r <==> old(channel).conns@[h.conn as int].pending@.contains(h.seq))
                &&& (r ==> final(channel).in_flight == old(channel).in_flight - 1
                    && !final(channel).conns@[h.conn as int].pending@.contains(h.seq))
                &&& (!r ==> *final(channel) == *old(channel))
                &&& forall|j: int|
                    0 <= j < old(channel).conns@.len() && j != h.conn ==> final(channel).conns@[j]
                        == old(channel).conns@[j]
            },
    {
        match self.inner {
            None => false,
            Some(h) => {
                if h.conn < channel.conns.len() {
                    channel.cancel(h)
                } else {
                    false
                }
            },
        }
    }

    /// Resolves the future against the reply package the channel delivered
    /// for its sequence id. A clean reply decodes to the typed response; a
    /// reply with an error code becomes that server error; a body that
    /// decodes to nothing is a codec error. The returned feedback record
    /// carries the call's start time and terminal outcome for the load
    /// balancer.
    pub fn poll(self, resp: (RpcResponseMeta, Vec<u8>)) -> (r: (
        Result<(C::Request, RpcInfo), MethodError>,
        CallInfo,
    ))
        ensures
            self.error matches Some(e) ==> r.0 == Err::<(C::Request, RpcInfo), MethodError>(e),
            self.error is None && self.inner is None ==> (r.0 matches Err(e) && e is CodecError),
            self.error is None && self.inner is Some && resp.0.error_code != 0 ==> r.0 == Err::<
                (C::Request, RpcInfo),
                MethodError,
            >(MethodError::ServerError(resp.0.error_code, resp.0.error_text)),
            self.error is None && self.inner is Some && resp.0.error_code == 0 ==> (match r.0 {
                Ok((m, _)) => C::dec_spec(resp.1@) == Some(m@),
                Err(e) => C::dec_spec(resp.1@) is None && e is CodecError,
            }),
            r.1.start_usec == self.start_usec,
            r.1.error is None <==> r.0 is Ok,
    {
        match self.error {
            Some(e) => {
                let info = CallInfo::new(self.start_usec, Some(e.clone()));
                return (Err(e), info);
            },
            None => {},
        }
        if self.inner.is_none() {
            return (
                Err(MethodError::CodecError),
                CallInfo::new(self.start_usec, Some(MethodError::CodecError)),
            );
        }
        let body = match errno_to_result(resp) {
            Ok(b) => b,
            Err(e) => {
                let info = CallInfo::new(self.start_usec, Some(e.clone()));
                return (Err(e), info);
            },
        };
        match self.codec.decode(&body) {
            Ok(m) => (Ok((m, RpcInfo)), CallInfo::new(self.start_usec, None)),
            Err(_) => (
                Err(MethodError::CodecError),
                CallInfo::new(self.start_usec, Some(MethodError::CodecError)),
            ),
        }
    }
}

/// Round trip over the whole wire path: the client's framed request parses
/// on the server into the same meta record and the same typed request, and
/// the server's framed reply parses at the client into the same meta record
/// and the same typed response.
pub proof fn lemma_call_round_trip<Req: PbMessage, Resp: PbMessage>(
    reqv: Req::V,
    respv: Resp::V,
    req_meta: ReqMetaView,
    resp_meta: RespMetaView,
    max_frame: u32,
)
    requires
        req_meta.wf(),
        resp_meta.wf(),
        12 + spec_encode_request_meta(req_meta).len() + Req::pb_enc(reqv).len() <= max_frame,
        12 + spec_encode_response_meta(resp_meta).len() + Resp::pb_enc(respv).len() <= max_frame,
    ensures
        spec_try_parse(
            spec_frame(spec_encode_request_meta(req_meta), Req::pb_enc(reqv)),
            max_frame,
        ) == SpecParse::Frame(
            spec_encode_request_meta(req_meta),
            Req::pb_enc(reqv),
            12 + spec_encode_request_meta(req_meta).len() + Req::pb_enc(reqv).len() as int,
        ),
        spec_decode_request_meta(spec_encode_request_meta(req_meta)) == Some(req_meta),
        Req::pb_dec(Req::pb_enc(reqv)) == Some(reqv),
        spec_try_parse(
            spec_frame(spec_encode_response_meta(resp_meta), Resp::pb_enc(respv)),
            max_frame,
        ) == SpecParse::Frame(
            spec_encode_response_meta(resp_meta),
            Resp::pb_enc(respv),
            12 + spec_encode_response_meta(resp_meta).len() + Resp::pb_enc(respv).len() as int,
        ),
        spec_decode_response_meta(spec_encode_response_meta(resp_meta)) == Some(resp_meta),
        Resp::pb_dec(Resp::pb_enc(respv)) == Some(respv),
{
    let req_frame = spec_frame(spec_encode_request_meta(req_meta), Req::pb_enc(reqv));
    assert(req_frame =~= req_frame + Seq::<u8>::empty());
    crate::protocol::lemma_frame_round_trip(
        spec_encode_request_meta(req_meta),
        Req::pb_enc(reqv),
        Seq::<u8>::empty(),
        max_frame,
    );
    crate::codec::lemma_request_meta_round_trip(req_meta);
    Req::pb_round_trip(reqv);
    let resp_frame = spec_frame(spec_encode_response_meta(resp_meta), Resp::pb_enc(respv));
    assert(resp_frame =~= resp_frame + Seq::<u8>::empty());
    crate::protocol::lemma_frame_round_trip(
        spec_encode_response_meta(resp_meta),
        Resp::pb_enc(respv),
        Seq::<u8>::empty(),
        max_frame,
    );
    crate::codec::lemma_response_meta_round_trip(resp_meta);
    Resp::pb_round_trip(respv);
}

} // verus!
