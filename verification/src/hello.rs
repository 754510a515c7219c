//! A greeting service as generated stub and registrant code would shape it:
//! the user-implemented trait, the registrant that contributes its method
//! table, and the typed client stub over a channel.
use vstd::prelude::*;

use crate::channel::Channel;
use crate::load_balancer::spec_choice;
use crate::codec::{spec_encode_request_meta, PbMessage, ProtobufCodec, ReqMetaView, StringMessage};
use crate::protocol::spec_frame;
use crate::controller::Controller;
use crate::service::{EncapsulatedMethod, MethodError, Service};
use crate::stub::{RpcWrapper, StubFuture};
use vstd::string::StringExecFns;

verus! {

/// The request a greeting method takes: one text field.
pub type HelloRequest = StringMessage;

/// The response a greeting method returns: one text field.
pub type HelloResponse = StringMessage;

/// What a greeting provider implements; these are user methods, so nothing
/// is promised of what they return.
pub trait HelloService {
    fn hello_general(&self, msg: (HelloRequest, Controller)) -> Result<
        (HelloResponse, Controller),
        MethodError,
    >;

    fn hello_to(&self, msg: (HelloRequest, Controller)) -> Result<
        (HelloResponse, Controller),
        MethodError,
    >;
}

/// Which greeting method a wrapper routes to.
#[derive(Clone, Copy, Debug, PartialEq, Eq, Structural)]
pub enum HelloMethodKind {
    General,
    To,
}

/// One provider bound to one of its methods, as a uniform service.
pub struct HelloMethod<S> {
    pub provider: S,
    pub which: HelloMethodKind,
}

impl<S: HelloService> Service for HelloMethod<S> {
    type Request = HelloRequest;

    type Response = HelloResponse;

    fn call(&self, req: (HelloRequest, Controller)) -> Result<
        (HelloResponse, Controller),
        MethodError,
    > {
        match self.which {
            HelloMethodKind::General => self.provider.hello_general(req),
            HelloMethodKind::To => self.provider.hello_to(req),
        }
    }
}

/// The codec-wrapped form of one greeting method.
pub type HelloEncap<S> = EncapsulatedMethod<
    ProtobufCodec<HelloRequest, HelloResponse>,
    HelloMethod<S>,
>;

/// Contributes the greeting methods under the service name `Hello`.
pub struct HelloRegistrant<S> {
    pub provider: S,
}

impl<S> HelloRegistrant<S> {
    pub fn new(provider: S) -> (r: Self)
        ensures
            r == (HelloRegistrant { provider }),
    {
        HelloRegistrant { provider }
    }

    /// The fixed service name these methods register under.
    pub fn name() -> (r: &'static str)
        ensures
            r@ == "Hello"@,
    {
        "Hello"
    }
}

impl<S: HelloService + Clone> HelloRegistrant<S> {
    /// The method table: each method name with its encapsulated method.
    pub fn methods(&self) -> (r: Vec<(String, HelloEncap<S>)>)
        ensures
            r@.len() == 2,
            r@[0].0@ == "hello_general"@,
            r@[0].1.method.which == HelloMethodKind::General,
            r@[1].0@ == "hello_to"@,
            r@[1].1.method.which == HelloMethodKind::To,
    {
        let mut entries: Vec<(String, HelloEncap<S>)> = Vec::new();
        let general = EncapsulatedMethod::new(
            ProtobufCodec::new(),
            HelloMethod { provider: self.provider.clone(), which: HelloMethodKind::General },
        );
        entries.push((String::from_str("hello_general"), general));
        let to = EncapsulatedMethod::new(
            ProtobufCodec::new(),
            HelloMethod { provider: self.provider.clone(), which: HelloMethodKind::To },
        );
        entries.push((String::from_str("hello_to"), to));
        entries
    }
}

/// The codec a greeting stub decodes replies and encodes requests with.
pub type HelloStubCodec = ProtobufCodec<HelloResponse, HelloRequest>;

/// Typed client facade for the greeting service over a channel.
pub struct HelloStub {
    pub hello_general_wrapper: RpcWrapper<HelloStubCodec>,
    pub hello_to_wrapper: RpcWrapper<HelloStubCodec>,
}

impl HelloStub {
    /// A stub holds nothing but its two codec bindings.
    pub fn new() -> (r: Self)
        ensures
            r.hello_general_wrapper.codec == HelloStubCodec::spec_new(),
            r.hello_to_wrapper.codec == HelloStubCodec::spec_new(),
    {
        HelloStub {
            hello_general_wrapper: RpcWrapper::new(ProtobufCodec::new()),
            hello_to_wrapper: RpcWrapper::new(ProtobufCodec::new()),
        }
    }

    /// Calls `Hello.hello_general` on the channel: the future to resolve
    /// and, when submission succeeded, the framed bytes to write.
    pub fn hello_general(
        &self,
        channel: &mut Channel,
        msg: HelloRequest,
        now: u64,
        entropy: u64,
    ) -> (r: (StubFuture<HelloStubCodec>, Option<Vec<u8>>))
        requires
            old(channel).wf(),
        ensures
            final(channel).wf(),
            old(channel).in_flight >= old(channel).max_concurrency ==> (r.0.error matches Some(e)
                && e is ChannelConcurrencyLimited && r.1 is None),
            r.1 matches Some(frame) ==> r.0.error is None && (r.0.inner matches Some(h)
                && frame@ == spec_frame(
                spec_encode_request_meta(
                    ReqMetaView {
                        service_name: "Hello"@,
                        method_name: "hello_general"@,
                        sequence_id: h.seq as nat,
                        compress_type: 0,
                    },
                ),
                StringMessage::pb_enc(msg@),
            )),
            // a refusal leaves every pending call in place
            r.1 is None ==> r.0.error is Some && final(channel).conns@ == old(channel).conns@
                && final(channel).in_flight == old(channel).in_flight,
            // success is owed whenever the channel has room, a backend is
            // selectable, its id space is not spent, and the request fits
            (old(channel).in_flight < old(channel).max_concurrency && (match spec_choice(
                old(channel).lb,
                now,
                entropy,
            ) {
                Some(c) => old(channel).conns@[c].next_seq < u64::MAX && ({
                    let m = spec_encode_request_meta(
                        ReqMetaView {
                            service_name: "Hello"@,
                            method_name: "hello_general"@,
                            sequence_id: old(channel).conns@[c].next_seq as nat,
                            compress_type: 0,
                        },
                    );
                    m.len() <= u32::MAX && StringMessage::pb_enc(msg@).len() <= u32::MAX && 12
                        + m.len() + StringMessage::pb_enc(msg@).len() <= usize::MAX
                }),
                None => false,
            })) ==> r.1 is Some,
    {
        self.hello_general_wrapper.call(
            channel,
            (msg, String::from_str("Hello"), String::from_str("hello_general")),
            now,
            entropy,
        )
    }

    /// Calls `Hello.hello_to` on the channel, as `hello_general`.
    pub fn hello_to(&self, channel: &mut Channel, msg: HelloRequest, now: u64, entropy: u64) -> (r:
        (StubFuture<HelloStubCodec>, Option<Vec<u8>>))
        requires
            old(channel).wf(),
        ensures
            final(channel).wf(),
            old(channel).in_flight >= old(channel).max_concurrency ==> (r.0.error matches Some(e)
                && e is ChannelConcurrencyLimited && r.1 is None),
            r.1 matches Some(frame) ==> r.0.error is None && (r.0.inner matches Some(h)
                && frame@ == spec_frame(
                spec_encode_request_meta(
                    ReqMetaView {
                        service_name: "Hello"@,
                        method_name: "hello_to"@,
                        sequence_id: h.seq as nat,
                        compress_type: 0,
                    },
                ),
                StringMessage::pb_enc(msg@),
            )),
            // a refusal leaves every pending call in place
            r.1 is None ==> r.0.error is Some && final(channel).conns@ == old(channel).conns@
                && final(channel).in_flight == old(channel).in_flight,
            // success is owed whenever the channel has room, a backend is
            // selectable, its id space is not spent, and the request fits
            (old(channel).in_flight < old(channel).max_concurrency && (match spec_choice(
                old(channel).lb,
                now,
                entropy,
            ) {
                Some(c) => old(channel).conns@[c].next_seq < u64::MAX && ({
                    let m = spec_encode_request_meta(
                        ReqMetaView {
                            service_name: "Hello"@,
                            method_name: "hello_to"@,
                            sequence_id: old(channel).conns@[c].next_seq as nat,
                            compress_type: 0,
                        },
                    );
                    m.len() <= u32::MAX && StringMessage::pb_enc(msg@).len() <= u32::MAX && 12
                        + m.len() + StringMessage::pb_enc(msg@).len() <= usize::MAX
                }),
                None => false,
            })) ==> r.1 is Some,
    {
        self.hello_to_wrapper.call(
            channel,
            (msg, String::from_str("Hello"), String::from_str("hello_to")),
            now,
            entropy,
        )
    }
}

} // verus!
