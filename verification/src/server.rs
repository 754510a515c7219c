//! The server side: per-connection drivers that latch a protocol, parse
//! pipelined frames under back-pressure, and frame replies in completion
//! order; and the server state holding them, whose throughput counter
//! ticks on every dispatched response. A fault on one connection never
//! touches another.
use vstd::prelude::*;

use crate::codec::{encode_response_meta, spec_encode_response_meta};
use crate::http::{parse_http_head, spec_parse_http_head, HttpHeadOutcome, SpecHttpHead};
use crate::message::RpcResponseMeta;
use crate::protocol::{
    detect_protocol, spec_detect, spec_frame, spec_try_parse, try_parse, write_frame,
    DetectOutcome, DetectedProtocol, ParseOutcome, SpecParse,
};
use vstd::string::StringExecFns;

verus! {

/// The structured error code a reply carries when no method owns the
/// request's full name.
pub const METHOD_NOT_FOUND_CODE: u32 = 1004;

/// What one driver turn asks of its caller.
pub enum DriverStep {
    /// Nothing to do until more bytes arrive or a dispatch completes.
    NeedMore,
    /// The connection's protocol is now latched.
    Detected(DetectedProtocol),
    /// A full frame came off the wire: meta bytes and body bytes to hand
    /// to the dispatcher.
    Dispatch(Vec<u8>, Vec<u8>),
    /// A bodyless HTTP request came in: the service and method its path
    /// names, for the dispatcher.
    DispatchHttp(String, String),
    /// The connection is closed.
    Closed,
}

/// A driver turn, mathematically.
pub ghost enum StepView {
    NeedMore,
    Detected(DetectedProtocol),
    Dispatch(Seq<u8>, Seq<u8>),
    /// Service name, method name, bytes the request head consumed.
    DispatchHttp(Seq<char>, Seq<char>, int),
    Closed,
}

/// Driver state for one connection.
pub struct ConnDriver {
    /// The protocol latched for this connection's lifetime, once detected.
    pub proto: Option<DetectedProtocol>,
    /// Bytes read and not yet consumed.
    pub buf: Vec<u8>,
    /// Requests dispatched and not yet completed; at the cap, reads halt.
    pub dispatched: u32,
    pub closed: bool,
}

/// The exact successor state and verdict of one driver turn.
pub open spec fn spec_step(d: ConnDriver, max_frame: u32, max_in_flight: u32) -> (
    ConnDriver,
    StepView,
) {
    if d.closed {
        (d, StepView::Closed)
    } else if d.proto is None {
        match spec_detect(d.buf@) {
            DetectOutcome::NeedMore => (d, StepView::NeedMore),
            DetectOutcome::Unknown => (
                ConnDriver { closed: true, ..d },
                StepView::Closed,
            ),
            DetectOutcome::Chosen(p) => (
                ConnDriver { proto: Some(p), ..d },
                StepView::Detected(p),
            ),
        }
    } else if d.proto == Some(DetectedProtocol::Binary) {
        if d.dispatched >= max_in_flight {
            (d, StepView::NeedMore)
        } else {
            match spec_try_parse(d.buf@, max_frame) {
                SpecParse::Incomplete => (d, StepView::NeedMore),
                SpecParse::Malformed => (
                    ConnDriver { closed: true, ..d },
                    StepView::Closed,
                ),
                // the step's own contract pins the buffer to the frame's
                // remainder; this successor carries the other fields
                SpecParse::Frame(m, b, c) => (
                    ConnDriver { dispatched: (d.dispatched + 1) as u32, ..d },
                    StepView::Dispatch(m, b),
                ),
            }
        }
    } else {
        // the HTTP surface: one bodyless request head per turn
        if d.dispatched >= max_in_flight {
            (d, StepView::NeedMore)
        } else {
            match spec_parse_http_head(d.buf@) {
                SpecHttpHead::NeedMore => (d, StepView::NeedMore),
                SpecHttpHead::Bad => (ConnDriver { closed: true, ..d }, StepView::Closed),
                SpecHttpHead::Request(svc, m, c) => (
                    ConnDriver { dispatched: (d.dispatched + 1) as u32, ..d },
                    StepView::DispatchHttp(svc, m, c),
                ),
            }
        }
    }
}

impl ConnDriver {
    /// A fresh driver for a just-accepted connection.
    pub fn new() -> (r: Self)
        ensures
            r.proto is None,
            r.buf@.len() == 0,
            r.dispatched == 0,
            !r.closed,
    {
        ConnDriver { proto: None, buf: Vec::new(), dispatched: 0, closed: false }
    }

    /// Bytes arrived from the transport.
    pub fn push_bytes(&mut self, data: &Vec<u8>)
        requires
            old(self).buf@.len() + data@.len() <= usize::MAX,
        ensures
            *final(self) == (ConnDriver { buf: final(self).buf, ..*old(self) }),
            final(self).buf@ == old(self).buf@ + data@,
    {
        let mut i: usize = 0;
        let n = data.len();
        while i < n
            invariant
                0 <= i <= n,
                n == data@.len(),
                self.proto == old(self).proto,
                self.dispatched == old(self).dispatched,
                self.closed == old(self).closed,
                old(self).buf@.len() + n <= usize::MAX,
                self.buf@ =~= old(self).buf@ + data@.take(i as int),
            decreases n - i,
        {
            self.buf.push(data[i]);
            i = i + 1;
        }
        proof {
            assert(self.buf@ =~= old(self).buf@ + data@);
        }
    }

    /// One driver turn: detect the protocol on a fresh connection, then
    /// take frames off the buffer while the per-connection dispatch cap
    /// leaves room; a malformed frame closes the connection without
    /// dispatching anything from it.
    pub fn step(&mut self, max_frame: u32, max_in_flight: u32) -> (r: DriverStep)
        ensures
            ({
                let (d2, view) = spec_step(*old(self), max_frame, max_in_flight);
                &&& final(self).proto == d2.proto
                &&& final(self).dispatched == d2.dispatched
                &&& final(self).closed == d2.closed
                &&& match r {
                    DriverStep::NeedMore => view is NeedMore && final(self).buf@ == old(
                        self,
                    ).buf@,
                    DriverStep::Detected(p) => view == StepView::Detected(p) && final(self).buf@
                        == old(self).buf@,
                    DriverStep::Closed => view is Closed && final(self).buf@ == old(self).buf@,
                    DriverStep::Dispatch(m, b) => {
                        &&& view == StepView::Dispatch(m@, b@)
                        &&& final(self).buf@ == old(self).buf@.skip(
                            12 + m@.len() + b@.len() as int,
                        )
                    },
                    DriverStep::DispatchHttp(svc, m) => (view matches StepView::DispatchHttp(
                        s2,
                        m2,
                        c,
                    ) && s2 == svc@ && m2 == m@ && final(self).buf@ == old(self).buf@.skip(c)),
                }
            }),
    {
        if self.closed {
            return DriverStep::Closed;
        }
        if self.proto.is_none() {
            match detect_protocol(&self.buf) {
                DetectOutcome::NeedMore => {
                    return DriverStep::NeedMore;
                },
                DetectOutcome::Unknown => {
                    self.closed = true;
                    return DriverStep::Closed;
                },
                DetectOutcome::Chosen(p) => {
                    self.proto = Some(p);
                    return DriverStep::Detected(p);
                },
            }
        }
        let is_binary = match self.proto {
            Some(DetectedProtocol::Binary) => true,
            _ => false,
        };
        if self.dispatched >= max_in_flight {
            return DriverStep::NeedMore;
        }
        if !is_binary {
            match parse_http_head(&self.buf) {
                HttpHeadOutcome::NeedMore => {
                    return DriverStep::NeedMore;
                },
                HttpHeadOutcome::Bad => {
                    self.closed = true;
                    return DriverStep::Closed;
                },
                HttpHeadOutcome::Request(svc, m, c) => {
                    let rest = crate::protocol::copy_range(&self.buf, c, self.buf.len());
                    self.buf = rest;
                    self.dispatched = self.dispatched + 1;
                    return DriverStep::DispatchHttp(svc, m);
                },
            }
        }
        match try_parse(&self.buf, max_frame) {
            ParseOutcome::Incomplete => DriverStep::NeedMore,
            ParseOutcome::Malformed => {
                self.closed = true;
                DriverStep::Closed
            },
            ParseOutcome::Frame(m, b, c) => {
                let rest = crate::protocol::copy_range(&self.buf, c, self.buf.len());
                self.buf = rest;
                self.dispatched = self.dispatched + 1;
                DriverStep::Dispatch(m, b)
            },
        }
    }

    /// A dispatched request completed: frame its reply for the wire, in
    /// completion order, and free its dispatch slot. `None` when the reply
    /// cannot be framed because a length does not fit.
    pub fn complete(&mut self, meta: &RpcResponseMeta, body: &Vec<u8>) -> (r: Option<Vec<u8>>)
        ensures
            final(self).proto == old(self).proto,
            final(self).buf@ == old(self).buf@,
            final(self).closed == old(self).closed,
            final(self).dispatched == if old(self).dispatched > 0 {
                old(self).dispatched - 1
            } else {
                0
            },
            r matches Some(frame) ==> frame@ == spec_frame(
                spec_encode_response_meta(meta@),
                body@,
            ),
            // only a reply too large for the frame header fails to frame
            r is None <==> (spec_encode_response_meta(meta@).len() > u32::MAX || body@.len()
                > u32::MAX || 12 + spec_encode_response_meta(meta@).len() + body@.len()
                > usize::MAX),
    {
        if self.dispatched > 0 {
            self.dispatched = self.dispatched - 1;
        }
        let meta_bytes = encode_response_meta(meta);
        if meta_bytes.len() > u32::MAX as usize || body.len() > u32::MAX as usize {
            return None;
        }
        let budget: usize = usize::MAX - 12;
        if meta_bytes.len() > budget || body.len() > budget - meta_bytes.len() {
            return None;
        }
        let mut frame: Vec<u8> = Vec::new();
        write_frame(&meta_bytes, body, &mut frame);
        Some(frame)
    }
}

/// Server configuration.
#[derive(Clone, Copy, Debug, PartialEq, Eq, Structural)]
pub struct ServerOptions {
    pub threads: u32,
    pub max_frame_bytes: u32,
    pub max_in_flight_per_conn: u32,
    pub track_throughput: bool,
}

/// Builds a server from options, each defaulted until set.
pub struct ServerBuilder {
    pub opts: ServerOptions,
}

impl ServerBuilder {
    /// Defaults: one thread, a 64 MiB frame limit, 128 requests in flight
    /// per connection, no throughput counter.
    pub fn new() -> (r: Self)
        ensures
            r.opts == (ServerOptions {
                threads: 1u32,
                max_frame_bytes: 0x4000000u32,
                max_in_flight_per_conn: 128u32,
                track_throughput: false,
            }),
    {
        ServerBuilder {
            opts: ServerOptions {
                threads: 1,
                max_frame_bytes: 0x4000000,
                max_in_flight_per_conn: 128,
                track_throughput: false,
            },
        }
    }

    pub fn threads(self, n: u32) -> (r: Self)
        ensures
            r.opts == (ServerOptions { threads: n, ..self.opts }),
    {
        ServerBuilder { opts: ServerOptions { threads: n, ..self.opts } }
    }

    pub fn max_frame_bytes(self, n: u32) -> (r: Self)
        ensures
            r.opts == (ServerOptions { max_frame_bytes: n, ..self.opts }),
    {
        ServerBuilder { opts: ServerOptions { max_frame_bytes: n, ..self.opts } }
    }

    pub fn max_in_flight_per_conn(self, n: u32) -> (r: Self)
        ensures
            r.opts == (ServerOptions { max_in_flight_per_conn: n, ..self.opts }),
    {
        ServerBuilder { opts: ServerOptions { max_in_flight_per_conn: n, ..self.opts } }
    }

    pub fn throughput(self, track: bool) -> (r: Self)
        ensures
            r.opts == (ServerOptions { track_throughput: track, ..self.opts }),
    {
        ServerBuilder { opts: ServerOptions { track_throughput: track, ..self.opts } }
    }

    pub fn build(self) -> (r: Server)
        ensures
            r.opts == self.opts,
            r.throughput == 0,
            r.conns@.len() == 0,
    {
        Server { opts: self.opts, throughput: 0, conns: Vec::new() }
    }
}

/// The server: its options, the shared throughput counter, and one driver
/// per live connection.
pub struct Server {
    pub opts: ServerOptions,
    pub throughput: u64,
    pub conns: Vec<ConnDriver>,
}

impl Server {
    /// A new connection was accepted; its driver id comes back.
    pub fn accept(&mut self) -> (r: usize)
        ensures
            r == old(self).conns@.len(),
            final(self).conns@.len() == old(self).conns@.len() + 1,
            final(self).conns@[old(self).conns@.len() as int].proto is None,
            final(self).conns@[old(self).conns@.len() as int].buf@.len() == 0,
            final(self).conns@[old(self).conns@.len() as int].dispatched == 0,
            !final(self).conns@[old(self).conns@.len() as int].closed,
            forall|j: int|
                0 <= j < old(self).conns@.len() ==> final(self).conns@[j] == old(self).conns@[j],
            final(self).opts == old(self).opts,
            final(self).throughput == old(self).throughput,
    {
        let id = self.conns.len();
        self.conns.push(ConnDriver::new());
        id
    }

    /// Bytes arrived on one connection. No other connection's state moves.
    pub fn conn_push_bytes(&mut self, id: usize, data: &Vec<u8>)
        requires
            id < old(self).conns@.len(),
            old(self).conns@[id as int].buf@.len() + data@.len() <= usize::MAX,
        ensures
            final(self).conns@.len() == old(self).conns@.len(),
            final(self).conns@[id as int] == (ConnDriver {
                buf: final(self).conns@[id as int].buf,
                ..old(self).conns@[id as int]
            }),
            final(self).conns@[id as int].buf@ == old(self).conns@[id as int].buf@ + data@,
            forall|j: int|
                0 <= j < old(self).conns@.len() && j != id ==> final(self).conns@[j] == old(
                    self,
                ).conns@[j],
            final(self).opts == old(self).opts,
            final(self).throughput == old(self).throughput,
    {
        let d = &mut self.conns[id];
        d.push_bytes(data);
    }

    /// One driver turn on one connection. Whatever the turn does — parse,
    /// dispatch, or close on a malformed frame — no other connection's
    /// state moves.
    pub fn conn_step(&mut self, id: usize) -> (r: DriverStep)
        requires
            id < old(self).conns@.len(),
        ensures
            final(self).conns@.len() == old(self).conns@.len(),
            forall|j: int|
                0 <= j < old(self).conns@.len() && j != id ==> final(self).conns@[j] == old(
                    self,
                ).conns@[j],
            final(self).opts == old(self).opts,
            final(self).throughput == old(self).throughput,
            ({
                let (d2, view) = spec_step(
                    old(self).conns@[id as int],
                    old(self).opts.max_frame_bytes,
                    old(self).opts.max_in_flight_per_conn,
                );
                &&& final(self).conns@[id as int].closed == d2.closed
                &&& final(self).conns@[id as int].proto == d2.proto
                &&& final(self).conns@[id as int].dispatched == d2.dispatched
                &&& match r {
                    DriverStep::NeedMore => view is NeedMore
                        && final(self).conns@[id as int].buf@ == old(self).conns@[id as int].buf@,
                    DriverStep::Detected(p) => view == StepView::Detected(p)
                        && final(self).conns@[id as int].buf@ == old(self).conns@[id as int].buf@,
                    DriverStep::Closed => view is Closed
                        && final(self).conns@[id as int].buf@ == old(self).conns@[id as int].buf@,
                    DriverStep::Dispatch(m, b) => view == StepView::Dispatch(m@, b@)
                        && final(self).conns@[id as int].buf@ == old(self).conns@[
                        id as int
                    ].buf@.skip(12 + m@.len() + b@.len() as int),
                    DriverStep::DispatchHttp(svc, m) => (view matches StepView::DispatchHttp(
                        s2,
                        m2,
                        c,
                    ) && s2 == svc@ && m2 == m@ && final(self).conns@[id as int].buf@ == old(
                        self,
                    ).conns@[id as int].buf@.skip(c)),
                }
            }),
    {
        let max_frame = self.opts.max_frame_bytes;
        let max_in_flight = self.opts.max_in_flight_per_conn;
        let d = &mut self.conns[id];
        d.step(max_frame, max_in_flight)
    }

    /// A dispatched request on one connection completed: frame the reply
    /// and, when the counter is on and a reply was framed, tick throughput.
    /// No other connection's state moves.
    pub fn conn_complete(&mut self, id: usize, meta: &RpcResponseMeta, body: &Vec<u8>) -> (r:
        Option<Vec<u8>>)
        requires
            id < old(self).conns@.len(),
        ensures
            final(self).conns@.len() == old(self).conns@.len(),
            forall|j: int|
                0 <= j < old(self).conns@.len() && j != id ==> final(self).conns@[j] == old(
                    self,
                ).conns@[j],
            final(self).opts == old(self).opts,
            final(self).conns@[id as int].proto == old(self).conns@[id as int].proto,
            final(self).conns@[id as int].buf@ == old(self).conns@[id as int].buf@,
            final(self).conns@[id as int].closed == old(self).conns@[id as int].closed,
            final(self).conns@[id as int].dispatched == if old(self).conns@[
                id as int
            ].dispatched > 0 {
                (old(self).conns@[id as int].dispatched - 1) as u32
            } else {
                0u32
            },
            r matches Some(frame) ==> frame@ == spec_frame(
                spec_encode_response_meta(meta@),
                body@,
            ),
            // only a reply too large for the frame header fails to frame
            r is None <==> (spec_encode_response_meta(meta@).len() > u32::MAX || body@.len()
                > u32::MAX || 12 + spec_encode_response_meta(meta@).len() + body@.len()
                > usize::MAX),
            final(self).throughput == if r is Some && old(self).opts.track_throughput && old(
                self,
            ).throughput < u64::MAX {
                (old(self).throughput + 1) as u64
            } else {
                old(self).throughput
            },
    {
        let d = &mut self.conns[id];
        let r = d.complete(meta, body);
        if r.is_some() && self.opts.track_throughput && self.throughput < u64::MAX {
            self.throughput = self.throughput + 1;
        }
        r
    }
}

/// The structured reply the dispatcher sends when no method owns the
/// request's full name; its error code is never zero.
pub fn not_found_response(sequence_id: u64) -> (r: RpcResponseMeta)
    ensures
        r.sequence_id == sequence_id,
        r.error_code == METHOD_NOT_FOUND_CODE,
        r.error_code != 0,
        r.error_text@ == "method not found"@,
        r.compress_type == 0,
{
    RpcResponseMeta {
        sequence_id,
        error_code: METHOD_NOT_FOUND_CODE,
        error_text: String::from_str("method not found"),
        compress_type: 0,
    }
}

} // verus!
