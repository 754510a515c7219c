//! The method pipeline: a typed user method wrapped behind the uniform
//! bytes-in/bytes-out interface. Each call decodes the body, invokes the
//! user callable with the controller, and encodes the typed reply.
use vstd::prelude::*;

use crate::bundle::{bytes_content, bytes_from_vec, bytes_to_vec, Bundle};
use crate::codec::MethodCodec;
use crate::controller::Controller;
use crate::CodecError;

verus! {

/// Every way a call can fail, as both sides of the wire see it.
#[derive(Clone, Debug)]
pub enum MethodError {
    /// An encode or decode step failed; not retryable.
    CodecError,
    /// The channel was at its concurrency cap when the call was submitted.
    ChannelConcurrencyLimited,
    /// Every backend is dead.
    NoHealthyBackend,
    /// The connection carrying the call dropped before the reply.
    ConnectionLost,
    /// The call's deadline passed.
    Timeout,
    /// An HTTP reply carried a non-success status.
    HttpError(u16),
    /// The server reported a structured error.
    ServerError(u32, String),
    /// Anything else.
    UnknownError,
}

impl From<CodecError> for MethodError {
    fn from(e: CodecError) -> (r: MethodError) {
        MethodError::CodecError
    }
}

impl vstd::std_specs::convert::FromSpecImpl<CodecError> for MethodError {
    open spec fn obeys_from_spec() -> bool {
        true
    }

    open spec fn from_spec(e: CodecError) -> MethodError {
        MethodError::CodecError
    }
}

/// A user method: typed request and controller in, typed response and the
/// same controller (possibly mutated) out. Implementations are user code,
/// so nothing is promised of what they return.
pub trait Service {
    type Request;

    type Response;

    fn call(&self, req: (Self::Request, Controller)) -> Result<
        (Self::Response, Controller),
        MethodError,
    >;
}

/// A user method together with the codec that feeds it, exposed behind the
/// uniform bytes interface.
pub struct EncapsulatedMethod<C, S> {
    pub codec: C,
    pub method: S,
}

impl<C, S> EncapsulatedMethod<C, S> {
    pub fn new(codec: C, method: S) -> (r: Self)
        ensures
            r == (EncapsulatedMethod { codec, method }),
    {
        EncapsulatedMethod { codec, method }
    }
}

impl<C, S> EncapsulatedMethod<C, S> where
    C: MethodCodec,
    S: Service<Request = C::Request, Response = C::Response>,
 {
    /// First pipeline step: the body bytes become the typed request, or the
    /// call fails with a codec error.
    pub fn decode_stage(&self, body: &Vec<u8>) -> (r: Result<C::Request, MethodError>)
        ensures
            match r {
                Ok(m) => C::dec_spec(body@) == Some(m@),
                Err(e) => C::dec_spec(body@) is None && e is CodecError,
            },
    {
        match self.codec.decode(body) {
            Ok(m) => Ok(m),
            Err(_) => Err(MethodError::CodecError),
        }
    }

    /// Last pipeline step: whatever the user callable returned becomes
    /// bytes. A structured user error passes through unchanged.
    pub fn encode_stage(&self, user: Result<(C::Response, Controller), MethodError>) -> (r: Result<
        (Vec<u8>, Controller),
        MethodError,
    >)
        ensures
            match user {
                Ok((m, ctrl)) => (r matches Ok((v, c)) && v@ == C::enc_spec(m@) && c == ctrl),
                Err(e) => r == Err::<(Vec<u8>, Controller), MethodError>(e),
            },
    {
        match user {
            Err(e) => Err(e),
            Ok((m, ctrl)) => match self.codec.encode(&m) {
                Ok(v) => Ok((v, ctrl)),
                Err(_) => Err(MethodError::CodecError),
            },
        }
    }

    /// The whole pipeline on one bundle. A body that decodes to no request
    /// fails with a codec error before the user callable runs; a reply is
    /// always the encoding of some typed response.
    pub fn call(&self, req: Bundle) -> (r: Result<Bundle, MethodError>)
        ensures
            C::dec_spec(bytes_content(req.0)) is None ==> (r matches Err(e) && e is CodecError),
            r is Ok ==> C::dec_spec(bytes_content(req.0)) is Some,
            r matches Ok(p) ==> exists|mv: <C::Response as View>::V|
                bytes_content(p.0) == C::enc_spec(mv),
    {
        let (body, ctrl) = req;
        let v = bytes_to_vec(&body);
        let typed = match self.decode_stage(&v) {
            Err(e) => {
                return Err(e);
            },
            Ok(t) => t,
        };
        let user = self.method.call((typed, ctrl));
        let ghost userv = user;
        match self.encode_stage(user) {
            Err(e) => Err(e),
            Ok((out, ctrl2)) => {
                proof {
                    let (m, _) = userv.unwrap();
                    assert(out@ == C::enc_spec(m@));
                }
                Ok((bytes_from_vec(out), ctrl2))
            },
        }
    }

    /// A fresh instance for a new connection, as the registry hands them
    /// out; the pipeline is stateless, so it is a clone.
    pub fn new_service(&self) -> Self where C: Clone, S: Clone {
        EncapsulatedMethod { codec: self.codec.clone(), method: self.method.clone() }
    }
}

} // verus!
