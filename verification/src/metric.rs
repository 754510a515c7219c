//! The metric method: a user method that publishes the server's throughput
//! counter as a plain-text page through the controller's side channel.
use vstd::prelude::*;

use crate::codec::Empty;
use crate::controller::{Controller, HttpStatus};
use crate::service::{MethodError, Service};

verus! {

/// Decimal digits of `n`, most significant first, as ASCII bytes.
pub open spec fn spec_decimal(n: nat) -> Seq<u8>
    decreases n,
{
    if n < 10 {
        seq![(48 + n) as u8]
    } else {
        spec_decimal(n / 10) + seq![(48 + n % 10) as u8]
    }
}

/// Appends the decimal digits of `n` to `out`.
pub fn push_decimal(n: u64, out: &mut Vec<u8>)
    ensures
        final(out)@ == old(out)@ + spec_decimal(n as nat),
    decreases n,
{
    if n < 10 {
        out.push(48 + (n as u8));
        proof {
            assert(out@ =~= old(out)@ + spec_decimal(n as nat));
        }
    } else {
        push_decimal(n / 10, out);
        out.push(48 + ((n % 10) as u8));
        proof {
            assert(out@ =~= old(out)@ + spec_decimal(n as nat));
        }
    }
}

/// The metric page for a counter value: `Throughput: ` then its digits.
pub open spec fn spec_metric_body(n: nat) -> Seq<u8> {
    seq![
        0x54u8, 0x68u8, 0x72u8, 0x6Fu8, 0x75u8, 0x67u8, 0x68u8, 0x70u8, 0x75u8, 0x74u8, 0x3Au8,
        0x20u8,
    ] + spec_decimal(n)
}

/// A user method that reads the throughput counter it was built over.
#[derive(Clone, Copy, Debug, PartialEq, Eq, Structural)]
pub struct Metric {
    pub throughput: u64,
}

impl Metric {
    pub fn new(throughput: u64) -> (r: Self)
        ensures
            r.throughput == throughput,
    {
        Metric { throughput }
    }

    /// Serves the metric page: a success status, a plain-text content type,
    /// and the counter's value as the body override, all through the
    /// controller; everything else on it is left alone.
    pub fn metric(&self, msg: (Empty, Controller)) -> (r: Result<(Empty, Controller), MethodError>)
        ensures
            r matches Ok((_, c)) ==> {
                &&& c.status == Some(HttpStatus::Okay)
                &&& c.response_body matches Some(b) && b@ == spec_metric_body(
                    self.throughput as nat,
                )
                &&& c.content_type matches Some(t) && t@ == "text/plain"@
                &&& c.request_headers@ == msg.1.request_headers@
                &&& c.response_headers@ == msg.1.response_headers@
                &&& c.remote_addr == msg.1.remote_addr
            },
            r is Ok,
    {
        let (empty, mut controller) = msg;
        let mut body: Vec<u8> = Vec::new();
        body.push(0x54);
        body.push(0x68);
        body.push(0x72);
        body.push(0x6F);
        body.push(0x75);
        body.push(0x67);
        body.push(0x68);
        body.push(0x70);
        body.push(0x75);
        body.push(0x74);
        body.push(0x3A);
        body.push(0x20);
        push_decimal(self.throughput, &mut body);
        proof {
            assert(body@ =~= spec_metric_body(self.throughput as nat));
        }
        controller.status = Some(HttpStatus::Okay);
        controller.response_body = Some(body);
        controller.set_content_type("text/plain");
        Ok((empty, controller))
    }
}

impl Service for Metric {
    type Request = Empty;

    type Response = Empty;

    fn call(&self, req: (Empty, Controller)) -> Result<(Empty, Controller), MethodError> {
        self.metric(req)
    }
}

} // verus!
