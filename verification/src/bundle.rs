//! The payload buffer that crosses every pipeline boundary, held in the
//! `bytes` crate's reference-counted buffer as the transport hands it over.
use vstd::prelude::*;

use crate::controller::Controller;

verus! {

/// Declares the `bytes` crate's `Bytes` buffer so payloads can keep the
/// transport's type through the pipeline; its contents are reached only
/// through `bytes_content` and the functions below.
#[verifier::external_type_specification]
#[verifier::external_body]
pub struct ExBytes(bytes::Bytes);

/// The bytes a buffer holds.
pub uninterp spec fn bytes_content(b: bytes::Bytes) -> Seq<u8>;

/// A payload and its per-call controller, together crossing a pipeline stage.
pub type Bundle = (bytes::Bytes, Controller);

/// Relies on Bytes's From<Vec<u8>>: the buffer takes over the vector's bytes.
#[verifier::external_body]
pub fn bytes_from_vec(v: Vec<u8>) -> (r: bytes::Bytes)
    ensures
        bytes_content(r) == v@,
{
    bytes::Bytes::from(v)
}

/// Relies on slice::to_vec reached through Bytes's deref to its bytes.
#[verifier::external_body]
pub fn bytes_to_vec(b: &bytes::Bytes) -> (r: Vec<u8>)
    ensures
        r@ == bytes_content(*b),
{
    b.to_vec()
}

} // verus!
