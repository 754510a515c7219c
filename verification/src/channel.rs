//! The client channel: a multiplexed caller over one logical connection per
//! backend, with an admission cap, per-connection monotonic sequence ids, a
//! pending table inserted into before the frame is written, and feedback to
//! the load balancer. The async driver lives outside; every state change is
//! a step of this machine.
use vstd::prelude::*;

use crate::codec::{encode_request_meta, spec_encode_request_meta, ReqMetaView};
use crate::load_balancer::{spec_choice, spec_revive, spec_rr_successor, Backend, CallInfo, LbStrategy, LoadBalancer};
use crate::message::{RpcRequestMeta, RpcResponseMeta};
use crate::protocol::{spec_frame, write_frame};
use crate::service::MethodError;

verus! {

/// Names one in-flight call: which connection carries it and the sequence
/// id it was issued.
#[derive(Clone, Copy, Debug, PartialEq, Eq, Structural)]
pub struct CallHandle {
    pub conn: usize,
    pub seq: u64,
}

/// One logical connection to a backend, with the outstanding calls on it.
pub struct Connection {
    /// Sequence id the next call on this connection gets; ids are never
    /// reused, so everything pending is below it.
    pub next_seq: u64,
    /// Sequence ids issued and not yet replied to or cancelled.
    pub pending: Vec<u64>,
    /// A dropped connection is reopened lazily on the next call.
    pub alive: bool,
}

/// The pending table holds no id twice, nothing at or above the next id,
/// and nothing at all on a dropped connection.
pub open spec fn conn_wf(c: Connection) -> bool {
    &&& forall|i: int, j: int|
        0 <= i < j < c.pending@.len() ==> c.pending@[i] != c.pending@[j]
    &&& forall|i: int| 0 <= i < c.pending@.len() ==> #[trigger] c.pending@[i] < c.next_seq
    &&& (!c.alive ==> c.pending@.len() == 0)
}

/// How many calls are outstanding over all connections.
pub open spec fn total_pending(conns: Seq<Connection>) -> int
    decreases conns.len(),
{
    if conns.len() == 0 {
        0
    } else {
        total_pending(conns.drop_last()) + conns.last().pending@.len()
    }
}

proof fn lemma_total_pending_push(s: Seq<Connection>, c: Connection)
    ensures
        total_pending(s.push(c)) == total_pending(s) + c.pending@.len(),
{
    assert(s.push(c).drop_last() =~= s);
}

proof fn lemma_total_pending_update(s: Seq<Connection>, i: int, c: Connection)
    requires
        0 <= i < s.len(),
    ensures
        total_pending(s.update(i, c)) == total_pending(s) - s[i].pending@.len()
            + c.pending@.len(),
    decreases s.len(),
{
    if i == s.len() - 1 {
        assert(s.update(i, c).drop_last() =~= s.drop_last());
    } else {
        assert(s.update(i, c).drop_last() =~= s.drop_last().update(i, c));
        lemma_total_pending_update(s.drop_last(), i, c);
    }
}

proof fn lemma_total_pending_nonneg(s: Seq<Connection>)
    ensures
        total_pending(s) >= 0,
    decreases s.len(),
{
    if s.len() > 0 {
        lemma_total_pending_nonneg(s.drop_last());
    }
}

proof fn lemma_total_pending_component(s: Seq<Connection>, i: int)
    requires
        0 <= i < s.len(),
    ensures
        s[i].pending@.len() <= total_pending(s),
    decreases s.len(),
{
    if i == s.len() - 1 {
        lemma_total_pending_nonneg(s.drop_last());
    } else {
        lemma_total_pending_component(s.drop_last(), i);
    }
}

/// The client channel: admission cap, connection pool, pending tables, and
/// the load balancer.
pub struct Channel {
    pub max_concurrency: u32,
    pub in_flight: u32,
    pub conns: Vec<Connection>,
    pub lb: LoadBalancer,
}

impl Channel {
    /// Every observable state keeps the cap, counts its pending entries
    /// exactly, and has one connection per backend.
    pub open spec fn wf(self) -> bool {
        &&& self.in_flight <= self.max_concurrency
        &&& self.in_flight as int == total_pending(self.conns@)
        &&& forall|i: int| 0 <= i < self.conns@.len() ==> conn_wf(#[trigger] self.conns@[i])
        &&& self.lb.wf()
        &&& self.lb.backends@.len() == self.conns@.len()
    }

    /// A channel to `backends` endpoints, nothing in flight.
    pub fn new(backends: usize, max_concurrency: u32, strategy: LbStrategy) -> (r: Self)
        ensures
            r.wf(),
            r.in_flight == 0,
            r.max_concurrency == max_concurrency,
            r.conns@.len() == backends,
            forall|i: int| 0 <= i < backends ==> (#[trigger] r.conns@[i]).pending@.len() == 0,
    {
        let mut conns: Vec<Connection> = Vec::new();
        let mut i: usize = 0;
        while i < backends
            invariant
                0 <= i <= backends,
                conns@.len() == i,
                total_pending(conns@) == 0,
                forall|j: int| 0 <= j < i ==> conn_wf(#[trigger] conns@[j]),
                forall|j: int| 0 <= j < i ==> (#[trigger] conns@[j]).pending@.len() == 0,
            decreases backends - i,
        {
            let c = Connection { next_seq: 0, pending: Vec::new(), alive: false };
            proof {
                lemma_total_pending_push(conns@, c);
            }
            conns.push(c);
            i = i + 1;
        }
        Channel {
            max_concurrency,
            in_flight: 0,
            conns,
            lb: LoadBalancer::new(strategy, backends),
        }
    }

    /// True once the channel is within a tenth of its cap; callers use it
    /// to pace their send loops.
    pub fn congested(&self) -> (r: bool)
        ensures
            r == (10 * self.in_flight >= 9 * self.max_concurrency),
    {
        10u64 * (self.in_flight as u64) >= 9u64 * (self.max_concurrency as u64)
    }

    /// Submits one call. In order: the admission check (a saturated channel
    /// refuses synchronously), backend selection, sequence assignment, the
    /// pending-table insert, and only then the framed bytes to write. The
    /// returned frame carries the meta record with the issued sequence id.
    pub fn call(&mut self, meta: &RpcRequestMeta, body: &Vec<u8>, now: u64, entropy: u64) -> (r:
        Result<(CallHandle, Vec<u8>), MethodError>)
        requires
            old(self).wf(),
        ensures
            final(self).wf(),
            final(self).max_concurrency == old(self).max_concurrency,
            final(self).lb.backends@.len() == old(self).lb.backends@.len(),
            // a saturated channel refuses exactly then, touching nothing
            (r matches Err(e) && e is ChannelConcurrencyLimited) <==> old(self).in_flight
                >= old(self).max_concurrency,
            // with room, a backendless channel refuses exactly then
            (r matches Err(e) && e is NoHealthyBackend) <==> (old(self).in_flight < old(
                self,
            ).max_concurrency && spec_choice(old(self).lb, now, entropy) is None),
            // a connection whose id space is spent refuses exactly then
            (r matches Err(e) && e is ConnectionLost) <==> (old(self).in_flight < old(
                self,
            ).max_concurrency && (match spec_choice(old(self).lb, now, entropy) {
                Some(c) => old(self).conns@[c].next_seq == u64::MAX,
                None => false,
            })),
            // a request too large for the frame header refuses exactly then
            (r matches Err(e) && e is CodecError) <==> (old(self).in_flight < old(
                self,
            ).max_concurrency && (match spec_choice(old(self).lb, now, entropy) {
                Some(c) => old(self).conns@[c].next_seq < u64::MAX && {
                    let m = spec_encode_request_meta(
                        ReqMetaView {
                            sequence_id: old(self).conns@[c].next_seq as nat,
                            ..meta@
                        },
                    );
                    m.len() > u32::MAX || body@.len() > u32::MAX || 12 + m.len() + body@.len()
                        > usize::MAX
                },
                None => false,
            })),
            // no failure changes a pending table or the count
            r is Err ==> final(self).conns@ == old(self).conns@ && final(self).in_flight == old(
                self,
            ).in_flight,
            r is Err <==> (r matches Err(e) && (e is ChannelConcurrencyLimited
                || e is NoHealthyBackend || e is ConnectionLost || e is CodecError)),
            r matches Ok((h, frame)) ==> {
                &&& old(self).in_flight < old(self).max_concurrency
                &&& spec_choice(old(self).lb, now, entropy) == Some(h.conn as int)
                &&& h.conn < old(self).conns@.len()
                &&& final(self).in_flight == old(self).in_flight + 1
                &&& h.seq == old(self).conns@[h.conn as int].next_seq
                &&& !old(self).conns@[h.conn as int].pending@.contains(h.seq)
                &&& final(self).conns@[h.conn as int].pending@ == old(self).conns@[
                    h.conn as int
                ].pending@.push(h.seq)
                &&& final(self).conns@[h.conn as int].next_seq == h.seq + 1
                &&& final(self).conns@[h.conn as int].alive
                &&& final(self).lb.strategy == old(self).lb.strategy
                &&& final(self).lb.backends@ == old(self).lb.backends@.map_values(
                    |b: Backend| spec_revive(b, now),
                )
                &&& final(self).lb.rr_next == spec_rr_successor(
                    old(self).lb,
                    spec_choice(old(self).lb, now, entropy),
                )
                &&& forall|j: int|
                    0 <= j < old(self).conns@.len() && j != h.conn ==> final(self).conns@[j]
                        == old(self).conns@[j]
                &&& frame@ == spec_frame(
                    spec_encode_request_meta(
                        ReqMetaView { sequence_id: h.seq as nat, ..meta@ },
                    ),
                    body@,
                )
            },
    {
        if self.in_flight >= self.max_concurrency {
            return Err(MethodError::ChannelConcurrencyLimited);
        }
        let chosen = match self.lb.select(now, entropy) {
            None => {
                return Err(MethodError::NoHealthyBackend);
            },
            Some(i) => i,
        };
        let conn = &self.conns[chosen];
        let seq = conn.next_seq;
        if seq == u64::MAX {
            // this connection's id space is spent; treat it as lost
            return Err(MethodError::ConnectionLost);
        }
        let wire_meta = RpcRequestMeta {
            service_name: meta.get_service_name().clone(),
            method_name: meta.get_method_name().clone(),
            sequence_id: seq,
            compress_type: meta.compress_type,
        };
        let meta_bytes = encode_request_meta(&wire_meta);
        if meta_bytes.len() > u32::MAX as usize || body.len() > u32::MAX as usize {
            return Err(MethodError::CodecError);
        }
        let budget: usize = usize::MAX - 12;
        if meta_bytes.len() > budget || body.len() > budget - meta_bytes.len() {
            return Err(MethodError::CodecError);
        }
        let mut frame: Vec<u8> = Vec::new();
        write_frame(&meta_bytes, body, &mut frame);
        let ghost before = self.conns@;
        let c = &mut self.conns[chosen];
        c.pending.push(seq);
        c.next_seq = seq + 1;
        c.alive = true;
        proof {
            lemma_total_pending_update(before, chosen as int, self.conns@[chosen as int]);
            assert forall|i: int| 0 <= i < self.conns@.len() implies conn_wf(
                #[trigger] self.conns@[i],
            ) by {
                if i == chosen {
                    let oldc = before[chosen as int];
                    let newc = self.conns@[i];
                    assert(newc.pending@ == oldc.pending@.push(seq));
                    assert forall|a: int, b: int|
                        0 <= a < b < newc.pending@.len() implies newc.pending@[a]
                        != newc.pending@[b] by {
                        if b == newc.pending@.len() - 1 {
                            assert(newc.pending@[a] == oldc.pending@[a]);
                            assert(oldc.pending@[a] < seq);
                        }
                    }
                }
            }
            if before[chosen as int].pending@.contains(seq) {
                let i = choose|i: int|
                    0 <= i < before[chosen as int].pending@.len() && before[
                        chosen as int
                    ].pending@[i] == seq;
                assert(before[chosen as int].pending@[i] < seq);
            }
        }
        self.in_flight = self.in_flight + 1;
        Ok((CallHandle { conn: chosen, seq }, frame))
    }

    /// Removes one pending entry, if it is there. True exactly when the
    /// entry was pending; then it is gone, nothing else moved, and the
    /// in-flight count fell by one.
    fn remove_pending(&mut self, conn: usize, seq: u64) -> (r: bool)
        requires
            old(self).wf(),
            conn < old(self).conns@.len(),
        ensures
            final(self).wf(),
            final(self).max_concurrency == old(self).max_concurrency,
            final(self).lb == old(self).lb,
            final(self).conns@.len() == old(self).conns@.len(),
            r <==> old(self).conns@[conn as int].pending@.contains(seq),
            !r ==> *final(self) == *old(self),
            r ==> {
                &&& final(self).in_flight == old(self).in_flight - 1
                &&& !final(self).conns@[conn as int].pending@.contains(seq)
                &&& final(self).conns@[conn as int].pending@.len() == old(self).conns@[
                    conn as int
                ].pending@.len() - 1
                &&& forall|x: u64|
                    x != seq ==> (final(self).conns@[conn as int].pending@.contains(x) <==> old(
                        self,
                    ).conns@[conn as int].pending@.contains(x))
                &&& forall|j: int|
                    0 <= j < old(self).conns@.len() && j != conn ==> final(self).conns@[j] == old(
                        self,
                    ).conns@[j]
            },
    {
        let ghost before = self.conns@;
        let n = self.conns[conn].pending.len();
        let mut i: usize = 0;
        while i < n
            invariant
                0 <= i <= n,
                *self == *old(self),
                old(self).wf(),
                before == self.conns@,
                conn < self.conns@.len(),
                n == self.conns@[conn as int].pending@.len(),
                forall|j: int| 0 <= j < i ==> self.conns@[conn as int].pending@[j] != seq,
            decreases n - i,
        {
            if self.conns[conn].pending[i] == seq {
                let ghost oldc = self.conns@[conn as int];
                let c = &mut self.conns[conn];
                let _ = c.pending.remove(i);
                proof {
                    lemma_total_pending_update(before, conn as int, self.conns@[conn as int]);
                    lemma_total_pending_component(before, conn as int);
                    let newp = self.conns@[conn as int].pending@;
                    let oldp = oldc.pending@;
                    assert(newp =~= oldp.subrange(0, i as int) + oldp.subrange(
                        i as int + 1,
                        oldp.len() as int,
                    ));
                    assert forall|a: int, b: int|
                        0 <= a < b < newp.len() implies newp[a] != newp[b] by {
                        let a0 = if a < i { a } else { a + 1 };
                        let b0 = if b < i { b } else { b + 1 };
                        assert(newp[a] == oldp[a0]);
                        assert(newp[b] == oldp[b0]);
                    }
                    assert forall|k: int| 0 <= k < newp.len() implies #[trigger] newp[k]
                        < self.conns@[conn as int].next_seq by {
                        let k0 = if k < i { k } else { k + 1 };
                        assert(newp[k] == oldp[k0]);
                    }
                    if newp.contains(seq) {
                        let k = choose|k: int| 0 <= k < newp.len() && newp[k] == seq;
                        let k0 = if k < i { k } else { k + 1 };
                        assert(oldp[k0] == seq);
                        assert(k0 != i);
                    }
                    assert forall|x: u64| x != seq && oldp.contains(x) implies newp.contains(
                        x,
                    ) by {
                        let k0 = choose|k0: int| 0 <= k0 < oldp.len() && oldp[k0] == x;
                        let k = if k0 < i { k0 } else { k0 - 1 };
                        assert(k0 != i);
                        assert(newp[k] == oldp[k0]);
                    }
                    assert forall|x: u64| x != seq && newp.contains(x) implies oldp.contains(
                        x,
                    ) by {
                        let k = choose|k: int| 0 <= k < newp.len() && newp[k] == x;
                        let k0 = if k < i { k } else { k + 1 };
                        assert(oldp[k0] == x);
                    }
                    assert(oldp.contains(seq));
                }
                self.in_flight = self.in_flight - 1;
                return true;
            }
            i = i + 1;
        }
        proof {
            if before[conn as int].pending@.contains(seq) {
                let k = choose|k: int|
                    0 <= k < before[conn as int].pending@.len() && before[
                        conn as int
                    ].pending@[k] == seq;
            }
            assert(self.conns@ =~= before);
        }
        false
    }

    /// A reply arrived on a connection: it completes the pending call with
    /// its sequence id, exactly once, whatever order replies come in.
    /// `true` exactly when some caller was waiting on that id.
    pub fn on_response(&mut self, conn: usize, meta: &RpcResponseMeta) -> (r: bool)
        requires
            old(self).wf(),
            conn < old(self).conns@.len(),
        ensures
            final(self).wf(),
            final(self).conns@.len() == old(self).conns@.len(),
            final(self).max_concurrency == old(self).max_concurrency,
            r <==> old(self).conns@[conn as int].pending@.contains(meta.sequence_id),
            !r ==> *final(self) == *old(self),
            r ==> final(self).in_flight == old(self).in_flight - 1 && !final(self).conns@[
                conn as int
            ].pending@.contains(meta.sequence_id),
            r ==> forall|x: u64|
                x != meta.sequence_id ==> (final(self).conns@[conn as int].pending@.contains(x)
                    <==> old(self).conns@[conn as int].pending@.contains(x)),
            r ==> delivers(
                old(self).conns@[conn as int].pending@,
                meta.sequence_id,
                final(self).conns@[conn as int].pending@,
            ),
            forall|j: int|
                0 <= j < old(self).conns@.len() && j != conn ==> final(self).conns@[j] == old(
                    self,
                ).conns@[j],
    {
        self.remove_pending(conn, meta.get_sequence_id())
    }

    /// The caller dropped its future: the pending entry goes away and the
    /// in-flight slot is released, once per handle.
    pub fn cancel(&mut self, h: CallHandle) -> (r: bool)
        requires
            old(self).wf(),
            h.conn < old(self).conns@.len(),
        ensures
            final(self).wf(),
            r <==> old(self).conns@[h.conn as int].pending@.contains(h.seq),
            !r ==> *final(self) == *old(self),
            r ==> final(self).in_flight == old(self).in_flight - 1 && !final(self).conns@[
                h.conn as int
            ].pending@.contains(h.seq),
            r ==> forall|x: u64|
                x != h.seq ==> (final(self).conns@[h.conn as int].pending@.contains(x) <==> old(
                    self,
                ).conns@[h.conn as int].pending@.contains(x)),
            forall|j: int|
                0 <= j < old(self).conns@.len() && j != h.conn ==> final(self).conns@[j] == old(
                    self,
                ).conns@[j],
            final(self).conns@.len() == old(self).conns@.len(),
            final(self).max_concurrency == old(self).max_concurrency,
    {
        self.remove_pending(h.conn, h.seq)
    }

    /// Dropping any number of distinct futures releases exactly the slots
    /// of those that were still in flight: the in-flight count falls by
    /// precisely how many of the dropped handles were pending.
    pub fn cancel_all(&mut self, handles: &Vec<CallHandle>) -> (r: usize)
        requires
            old(self).wf(),
            forall|i: int|
                0 <= i < handles@.len() ==> (#[trigger] handles@[i]).conn < old(
                    self,
                ).conns@.len(),
            forall|i: int, j: int|
                0 <= i < j < handles@.len() ==> handles@[i] != handles@[j],
        ensures
            final(self).wf(),
            r == spec_count_pending(*old(self), handles@),
            final(self).in_flight == old(self).in_flight - spec_count_pending(
                *old(self),
                handles@,
            ),
    {
        let ghost orig = *old(self);
        let n = handles.len();
        let mut dropped: usize = 0;
        let mut i: usize = 0;
        while i < n
            invariant
                0 <= i <= n,
                n == handles@.len(),
                self.wf(),
                self.conns@.len() == orig.conns@.len(),
                forall|k: int|
                    0 <= k < handles@.len() ==> (#[trigger] handles@[k]).conn
                        < orig.conns@.len(),
                forall|k: int, j: int|
                    0 <= k < j < handles@.len() ==> handles@[k] != handles@[j],
                dropped == spec_count_pending(orig, handles@.take(i as int)),
                dropped <= i,
                self.in_flight == orig.in_flight - dropped,
                // handles not yet dropped are pending now exactly when they
                // were pending at the start
                forall|k: int|
                    i <= k < handles@.len() ==> (self.conns@[(#[trigger] handles@[k]).conn
                        as int].pending@.contains(handles@[k].seq) <==> orig.conns@[
                        handles@[k].conn as int
                    ].pending@.contains(handles@[k].seq)),
            decreases n - i,
        {
            let h = handles[i];
            let ghost prev = *self;
            let hit = self.cancel(h);
            proof {
                lemma_count_pending_take(orig, handles@, i as int);
                assert forall|k: int|
                    i + 1 <= k < handles@.len() implies (self.conns@[(#[trigger] handles@[k]).conn
                        as int].pending@.contains(handles@[k].seq) <==> orig.conns@[
                        handles@[k].conn as int
                    ].pending@.contains(handles@[k].seq)) by {
                    let hk = handles@[k];
                    if hk.conn == h.conn {
                        // distinct handles on one connection differ in seq
                        assert(hk != h);
                        assert(hk.seq != h.seq);
                    }
                }
            }
            if hit {
                dropped = dropped + 1;
            }
            i = i + 1;
        }
        proof {
            assert(handles@.take(n as int) =~= handles@);
        }
        dropped
    }

    /// A call's deadline passed: once it has, a still-pending call is
    /// cancelled exactly as a dropped future is and fails with a timeout.
    /// Before the deadline, or for a call already completed, nothing moves.
    pub fn on_deadline(&mut self, h: CallHandle, now: u64, deadline: u64) -> (r: Option<
        MethodError,
    >)
        requires
            old(self).wf(),
            h.conn < old(self).conns@.len(),
        ensures
            final(self).wf(),
            final(self).conns@.len() == old(self).conns@.len(),
            now < deadline ==> r is None && *final(self) == *old(self),
            now >= deadline && !old(self).conns@[h.conn as int].pending@.contains(h.seq) ==> (
            r is None && *final(self) == *old(self)),
            now >= deadline && old(self).conns@[h.conn as int].pending@.contains(h.seq) ==> {
                &&& r matches Some(e) && e is Timeout
                &&& final(self).in_flight == old(self).in_flight - 1
                &&& !final(self).conns@[h.conn as int].pending@.contains(h.seq)
                &&& forall|j: int|
                    0 <= j < old(self).conns@.len() && j != h.conn ==> final(self).conns@[j]
                        == old(self).conns@[j]
            },
    {
        if now < deadline {
            return None;
        }
        if self.cancel(h) {
            Some(MethodError::Timeout)
        } else {
            None
        }
    }

    /// The transport reported a dropped connection: every call pending on
    /// it completes with a connection-lost error, and the connection waits
    /// to be reopened lazily.
    pub fn on_connection_lost(&mut self, conn: usize) -> (r: Vec<u64>)
        requires
            old(self).wf(),
            conn < old(self).conns@.len(),
        ensures
            final(self).wf(),
            final(self).conns@.len() == old(self).conns@.len(),
            final(self).max_concurrency == old(self).max_concurrency,
            r@ == old(self).conns@[conn as int].pending@,
            final(self).conns@[conn as int].pending@.len() == 0,
            !final(self).conns@[conn as int].alive,
            final(self).in_flight == old(self).in_flight - old(self).conns@[
                conn as int
            ].pending@.len(),
            forall|j: int|
                0 <= j < old(self).conns@.len() && j != conn ==> final(self).conns@[j] == old(
                    self,
                ).conns@[j],
    {
        let ghost before = self.conns@;
        let n = self.conns[conn].pending.len();
        let mut drained: Vec<u64> = Vec::new();
        let mut i: usize = 0;
        while i < n
            invariant
                0 <= i <= n,
                conn < self.conns@.len(),
                self.conns@ == before,
                n == self.conns@[conn as int].pending@.len(),
                drained@ =~= self.conns@[conn as int].pending@.take(i as int),
            decreases n - i,
        {
            drained.push(self.conns[conn].pending[i]);
            i = i + 1;
        }
        let c = &mut self.conns[conn];
        c.pending.clear();
        c.alive = false;
        proof {
            lemma_total_pending_update(before, conn as int, self.conns@[conn as int]);
            lemma_total_pending_component(before, conn as int);
            assert(drained@ =~= before[conn as int].pending@);
        }
        self.in_flight = self.in_flight - (n as u32);
        return drained;
    }

    /// Reports one finished call to the load balancer.
    pub fn feedback(&mut self, backend: usize, info: &CallInfo, now: u64)
        requires
            old(self).wf(),
            backend < old(self).lb.backends@.len(),
        ensures
            final(self).wf(),
            final(self).in_flight == old(self).in_flight,
            final(self).max_concurrency == old(self).max_concurrency,
            final(self).conns@ == old(self).conns@,
            final(self).lb.backends@ == old(self).lb.backends@.update(
                backend as int,
                crate::load_balancer::spec_feedback(
                    old(self).lb.backends@[backend as int],
                    info.error is None,
                    if now >= info.start_usec {
                        (now - info.start_usec) as u64
                    } else {
                        0u64
                    },
                    now,
                ),
            ),
    {
        self.lb.feedback(backend, info, now);
    }
}

/// What delivering one reply does to a pending table, as `on_response`
/// promises it: the delivered id leaves, everything else stays.
pub open spec fn delivers(before: Seq<u64>, s: u64, after: Seq<u64>) -> bool {
    &&& !after.contains(s)
    &&& after.len() == before.len() - 1
    &&& forall|x: u64| x != s ==> (after.contains(x) <==> before.contains(x))
}

/// Replies on one connection may arrive out of order: delivering two
/// distinct ids leaves the same outstanding calls whichever reply came
/// first, and each delivery completes only its own caller.
pub proof fn lemma_out_of_order_delivery(
    p: Seq<u64>,
    s1: u64,
    s2: u64,
    a: Seq<u64>,
    ab: Seq<u64>,
    b: Seq<u64>,
    ba: Seq<u64>,
)
    requires
        s1 != s2,
        delivers(p, s1, a),
        delivers(a, s2, ab),
        delivers(p, s2, b),
        delivers(b, s1, ba),
    ensures
        forall|x: u64| ab.contains(x) <==> ba.contains(x),
        !ab.contains(s1) && !ab.contains(s2),
        ab.len() == ba.len(),
{
    assert forall|x: u64| ab.contains(x) <==> ba.contains(x) by {
        if x == s1 {
            assert(!ab.contains(s1));
        } else if x == s2 {
        } else {
            assert(ab.contains(x) <==> p.contains(x));
            assert(ba.contains(x) <==> p.contains(x));
        }
    }
}

/// How many of these handles name a call pending in this channel state.
pub open spec fn spec_count_pending(ch: Channel, hs: Seq<CallHandle>) -> int
    decreases hs.len(),
{
    if hs.len() == 0 {
        0
    } else {
        spec_count_pending(ch, hs.drop_last()) + if hs.last().conn < ch.conns@.len()
            && ch.conns@[hs.last().conn as int].pending@.contains(hs.last().seq) {
            1int
        } else {
            0int
        }
    }
}

proof fn lemma_count_pending_take(ch: Channel, hs: Seq<CallHandle>, i: int)
    requires
        0 <= i < hs.len(),
    ensures
        spec_count_pending(ch, hs.take(i + 1)) == spec_count_pending(ch, hs.take(i)) + if hs[
            i
        ].conn < ch.conns@.len() && ch.conns@[hs[i].conn as int].pending@.contains(hs[i].seq) {
            1int
        } else {
            0int
        },
{
    assert(hs.take(i + 1).drop_last() =~= hs.take(i));
    assert(hs.take(i + 1).last() == hs[i]);
}

/// No two in-flight calls on one connection share a sequence id: what the
/// channel keeps invariant, stated on its own.
pub proof fn lemma_sequence_correlation(ch: Channel, conn: int, i: int, j: int)
    requires
        ch.wf(),
        0 <= conn < ch.conns@.len(),
        0 <= i < ch.conns@[conn].pending@.len(),
        0 <= j < ch.conns@[conn].pending@.len(),
        i != j,
    ensures
        ch.conns@[conn].pending@[i] != ch.conns@[conn].pending@[j],
{
}

/// The concurrency cap holds at every observable instant.
pub proof fn lemma_concurrency_cap(ch: Channel)
    requires
        ch.wf(),
    ensures
        ch.in_flight <= ch.max_concurrency,
        total_pending(ch.conns@) <= ch.max_concurrency,
{
}

} // verus!
