//! Core of an RPC framework: protobuf-framed messages over a pluggable wire
//! protocol, a multiplexed client channel with a concurrency cap and load
//! balancing, and a server-side dispatch pipeline.
use vstd::prelude::*;

pub mod bundle;
pub mod channel;
pub mod codec;
pub mod controller;
pub mod dispatcher;
pub mod hello;
pub mod http;
pub mod load_balancer;
pub mod message;
pub mod metric;
pub mod protocol;
pub mod server;
pub mod service;
pub mod stub;
pub mod varint;

verus! {

/// Failure of a codec encode or decode step; non-retryable.
#[derive(Clone, Copy, Debug, PartialEq, Eq, Structural)]
pub struct CodecError;

} // verus!
