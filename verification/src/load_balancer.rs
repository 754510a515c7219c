//! Backend selection and health tracking. Every terminal call outcome
//! feeds back into a per-backend record; selection picks among the backends
//! the strategy considers usable.
use vstd::prelude::*;

use crate::service::MethodError;

verus! {

/// Microseconds a backend must stay quiet after three consecutive failures
/// before five more failures inside this window kill it.
pub const RECOVERING_WINDOW_USEC: u64 = 30_000_000;

/// Cool-down before a dead backend is probed again.
pub const DEAD_COOLDOWN_USEC: u64 = 5_000_000;

/// Feedback for one finished call: when it started and how it ended.
/// `error` of `None` means success.
pub struct CallInfo {
    pub start_usec: u64,
    pub error: Option<MethodError>,
}

impl CallInfo {
    pub fn new(start_usec: u64, error: Option<MethodError>) -> (r: Self)
        ensures
            r == (CallInfo { start_usec, error }),
    {
        CallInfo { start_usec, error }
    }

    pub open spec fn is_success(self) -> bool {
        self.error is None
    }
}

#[derive(Clone, Copy, Debug, PartialEq, Eq, Structural)]
pub enum BackendState {
    Healthy,
    Recovering,
    Dead,
}

/// One backend's health record.
#[derive(Clone, Copy, Debug, PartialEq, Eq, Structural)]
pub struct Backend {
    pub state: BackendState,
    /// Consecutive failures while healthy; three demote the backend.
    pub consecutive_failures: u32,
    /// Failures inside the recovering window; five kill the backend.
    pub recovering_failures: u32,
    /// Consecutive successes while recovering; three restore the backend.
    pub consecutive_successes: u32,
    pub recovering_since_usec: u64,
    pub dead_since_usec: u64,
    /// Exponentially weighted latency, one tenth new sample each time.
    pub latency_ewma_usec: u64,
    /// Low bits: the most recent outcomes, a set bit is a failure.
    pub window: u64,
    /// How many outcomes the window holds, at most 64.
    pub window_len: u32,
}

impl Backend {
    /// A fresh healthy backend.
    pub fn new() -> (r: Self)
        ensures
            r == Self::spec_new(),
    {
        Backend {
            state: BackendState::Healthy,
            consecutive_failures: 0,
            recovering_failures: 0,
            consecutive_successes: 0,
            recovering_since_usec: 0,
            dead_since_usec: 0,
            latency_ewma_usec: 0,
            window: 0,
            window_len: 0,
        }
    }

    pub open spec fn spec_new() -> Backend {
        Backend {
            state: BackendState::Healthy,
            consecutive_failures: 0,
            recovering_failures: 0,
            consecutive_successes: 0,
            recovering_since_usec: 0,
            dead_since_usec: 0,
            latency_ewma_usec: 0,
            window: 0,
            window_len: 0,
        }
    }

    pub open spec fn wf(self) -> bool {
        self.consecutive_failures < 3 && self.recovering_failures < 5
            && self.consecutive_successes < 3
    }
}

/// The latency average after one more sample, one tenth of the new value.
pub open spec fn spec_ewma(old_usec: u64, sample_usec: u64) -> u64 {
    ((9 * old_usec + sample_usec) / 10) as u64
}

/// The outcome window after one more outcome: the old outcomes shift up and
/// the new one takes the lowest bit.
pub open spec fn spec_window_push(w: u64, failure: bool) -> u64 {
    if failure {
        (w << 1u64) | 1u64
    } else {
        w << 1u64
    }
}

/// One feedback step: the exact successor of a backend record after a call
/// on it finished, per the health state machine.
pub open spec fn spec_feedback(b: Backend, success: bool, latency_usec: u64, now: u64) -> Backend {
    let base = Backend {
        latency_ewma_usec: spec_ewma(b.latency_ewma_usec, latency_usec),
        window: spec_window_push(b.window, !success),
        window_len: if b.window_len < 64 {
            (b.window_len + 1) as u32
        } else {
            64u32
        },
        ..b
    };
    match b.state {
        BackendState::Healthy => {
            if success {
                Backend { consecutive_failures: 0, ..base }
            } else if b.consecutive_failures >= 2 {
                Backend {
                    state: BackendState::Recovering,
                    consecutive_failures: 0,
                    recovering_failures: 0,
                    consecutive_successes: 0,
                    recovering_since_usec: now,
                    ..base
                }
            } else {
                Backend { consecutive_failures: (b.consecutive_failures + 1) as u32, ..base }
            }
        },
        BackendState::Recovering => {
            if success {
                if b.consecutive_successes >= 2 {
                    Backend {
                        state: BackendState::Healthy,
                        consecutive_failures: 0,
                        recovering_failures: 0,
                        consecutive_successes: 0,
                        ..base
                    }
                } else {
                    Backend {
                        consecutive_successes: (b.consecutive_successes + 1) as u32,
                        ..base
                    }
                }
            } else if now > b.recovering_since_usec && now - b.recovering_since_usec
                > RECOVERING_WINDOW_USEC {
                // the window lapsed: this failure starts a new one
                Backend {
                    recovering_failures: 1,
                    consecutive_successes: 0,
                    recovering_since_usec: now,
                    ..base
                }
            } else if b.recovering_failures >= 4 {
                Backend {
                    state: BackendState::Dead,
                    recovering_failures: 0,
                    consecutive_successes: 0,
                    dead_since_usec: now,
                    ..base
                }
            } else {
                Backend {
                    recovering_failures: (b.recovering_failures + 1) as u32,
                    consecutive_successes: 0,
                    ..base
                }
            }
        },
        BackendState::Dead => base,
    }
}

/// A dead backend past its cool-down becomes a recovering probe target.
pub open spec fn spec_revive(b: Backend, now: u64) -> Backend {
    if b.state is Dead && now >= b.dead_since_usec && now - b.dead_since_usec
        >= DEAD_COOLDOWN_USEC {
        Backend {
            state: BackendState::Recovering,
            recovering_failures: 0,
            consecutive_successes: 0,
            recovering_since_usec: now,
            ..b
        }
    } else {
        b
    }
}

#[derive(Clone, Copy, Debug, PartialEq, Eq, Structural)]
pub enum LbStrategy {
    RoundRobin,
    Random,
    LeastLatency,
    FailoverList,
}

/// Whether this strategy may route a call to a backend in this state: the
/// failover list skips anything not healthy, the others also probe
/// recovering backends.
pub open spec fn spec_selectable(strategy: LbStrategy, b: Backend) -> bool {
    match strategy {
        LbStrategy::FailoverList => b.state is Healthy,
        _ => !(b.state is Dead),
    }
}

/// First selectable backend at or cyclically after `start + k`.
pub open spec fn spec_pick_from(bs: Seq<Backend>, strategy: LbStrategy, start: int, k: nat) -> Option<int>
    decreases bs.len() - k when k <= bs.len()
{
    if k >= bs.len() {
        None
    } else {
        let idx = (start + k) % (bs.len() as int);
        if spec_selectable(strategy, bs[idx]) {
            Some(idx)
        } else {
            spec_pick_from(bs, strategy, start, k + 1)
        }
    }
}

/// The selectable backend with the lowest latency average among positions
/// `k` and later, earliest position winning ties.
pub open spec fn spec_min_latency_from(bs: Seq<Backend>, strategy: LbStrategy, k: nat) -> Option<int>
    decreases bs.len() - k when k <= bs.len()
{
    if k >= bs.len() {
        None
    } else {
        let rest = spec_min_latency_from(bs, strategy, k + 1);
        if !spec_selectable(strategy, bs[k as int]) {
            rest
        } else {
            match rest {
                None => Some(k as int),
                Some(j) => if bs[k as int].latency_ewma_usec <= bs[j].latency_ewma_usec {
                    Some(k as int)
                } else {
                    Some(j)
                },
            }
        }
    }
}

/// The backend `select` picks from this balancer state at this instant with
/// this entropy, after dead backends past cool-down have been revived.
pub open spec fn spec_choice(lb: LoadBalancer, now: u64, entropy: u64) -> Option<int> {
    let bs = lb.backends@.map_values(|b: Backend| spec_revive(b, now));
    let n = bs.len() as int;
    match lb.strategy {
        LbStrategy::RoundRobin => spec_pick_from(bs, LbStrategy::RoundRobin, lb.rr_next as int, 0),
        LbStrategy::Random => if n == 0 {
            None
        } else {
            spec_pick_from(bs, LbStrategy::Random, (entropy as int) % n, 0)
        },
        LbStrategy::LeastLatency => spec_min_latency_from(bs, LbStrategy::LeastLatency, 0),
        LbStrategy::FailoverList => spec_pick_from(bs, LbStrategy::FailoverList, 0, 0),
    }
}

/// Where the rotation pointer stands after a selection that picked
/// `picked`: one past the pick for the round-robin strategy, untouched for
/// every other.
pub open spec fn spec_rr_successor(lb: LoadBalancer, picked: Option<int>) -> usize {
    match (lb.strategy, picked) {
        (LbStrategy::RoundRobin, Some(i)) => if i + 1 >= lb.backends@.len() {
            0usize
        } else {
            (i + 1) as usize
        },
        _ => lb.rr_next,
    }
}

/// Picks a backend per call and digests completion feedback.
pub struct LoadBalancer {
    pub strategy: LbStrategy,
    pub backends: Vec<Backend>,
    pub rr_next: usize,
}

impl LoadBalancer {
    pub open spec fn wf(self) -> bool {
        &&& forall|i: int| 0 <= i < self.backends@.len() ==> (#[trigger] self.backends@[i]).wf()
        &&& (self.backends@.len() == 0 ==> self.rr_next == 0)
        &&& (self.backends@.len() > 0 ==> self.rr_next < self.backends@.len())
    }

    /// A balancer over `n` fresh healthy backends.
    pub fn new(strategy: LbStrategy, n: usize) -> (r: Self)
        ensures
            r.wf(),
            r.strategy == strategy,
            r.rr_next == 0,
            r.backends@.len() == n,
            forall|i: int| 0 <= i < n ==> r.backends@[i] == Backend::spec_new(),
    {
        let mut backends: Vec<Backend> = Vec::new();
        let mut i: usize = 0;
        while i < n
            invariant
                0 <= i <= n,
                backends@.len() == i,
                forall|j: int| 0 <= j < i ==> backends@[j] == Backend::spec_new(),
            decreases n - i,
        {
            backends.push(Backend::new());
            i = i + 1;
        }
        LoadBalancer { strategy, backends, rr_next: 0 }
    }

    /// Digests one finished call: the backend's record takes exactly one
    /// feedback step; every other backend is untouched.
    pub fn feedback(&mut self, backend_id: usize, info: &CallInfo, now: u64)
        requires
            old(self).wf(),
            backend_id < old(self).backends@.len(),
        ensures
            final(self).wf(),
            final(self).strategy == old(self).strategy,
            final(self).rr_next == old(self).rr_next,
            final(self).backends@ == old(self).backends@.update(
                backend_id as int,
                spec_feedback(
                    old(self).backends@[backend_id as int],
                    info.error is None,
                    if now >= info.start_usec {
                        (now - info.start_usec) as u64
                    } else {
                        0u64
                    },
                    now,
                ),
            ),
    {
        let latency: u64 = if now >= info.start_usec {
            now - info.start_usec
        } else {
            0
        };
        let success = info.error.is_none();
        let b = self.backends[backend_id];
        let stepped = feedback_step(b, success, latency, now);
        self.backends[backend_id] = stepped;
    }

    /// Revives cooled-down dead backends, then picks one as the strategy
    /// says: the next in rotation, one at the entropy's position, the
    /// lowest-latency one, or the first healthy one of the failover list.
    /// `None` exactly when no backend is selectable.
    pub fn select(&mut self, now: u64, entropy: u64) -> (r: Option<usize>)
        requires
            old(self).wf(),
        ensures
            final(self).wf(),
            final(self).strategy == old(self).strategy,
            final(self).backends@ == old(self).backends@.map_values(
                |b: Backend| spec_revive(b, now),
            ),
            final(self).rr_next == spec_rr_successor(
                *old(self),
                spec_choice(*old(self), now, entropy),
            ),
            ({
                let bs = old(self).backends@.map_values(|b: Backend| spec_revive(b, now));
                let picked = spec_choice(*old(self), now, entropy);
                match r {
                    Some(i) => picked == Some(i as int) && i < bs.len() && spec_selectable(
                        old(self).strategy,
                        bs[i as int],
                    ),
                    None => picked is None,
                }
            }),
    {
        let n = self.backends.len();
        let mut i: usize = 0;
        while i < n
            invariant
                0 <= i <= n,
                n == self.backends@.len(),
                self.strategy == old(self).strategy,
                self.rr_next == old(self).rr_next,
                forall|j: int| 0 <= j < i ==> self.backends@[j] == spec_revive(
                    old(self).backends@[j],
                    now,
                ),
                forall|j: int| i <= j < n ==> self.backends@[j] == old(self).backends@[j],
            decreases n - i,
        {
            let b = self.backends[i];
            let revived = if matches!(b.state, BackendState::Dead) && now >= b.dead_since_usec
                && now - b.dead_since_usec >= DEAD_COOLDOWN_USEC {
                Backend {
                    state: BackendState::Recovering,
                    recovering_failures: 0,
                    consecutive_successes: 0,
                    recovering_since_usec: now,
                    ..b
                }
            } else {
                b
            };
            self.backends[i] = revived;
            i = i + 1;
        }
        proof {
            assert(self.backends@ =~= old(self).backends@.map_values(
                |b: Backend| spec_revive(b, now),
            ));
        }
        if n == 0 {
            return None;
        }
        let start: usize = match self.strategy {
            LbStrategy::RoundRobin => self.rr_next,
            LbStrategy::Random => (entropy % (n as u64)) as usize,
            LbStrategy::LeastLatency => 0,
            LbStrategy::FailoverList => 0,
        };
        let r = match self.strategy {
            LbStrategy::LeastLatency => self.min_latency(),
            _ => self.pick_cyclic(start),
        };
        if matches!(self.strategy, LbStrategy::RoundRobin) {
            if let Some(i) = r {
                self.rr_next = if i + 1 >= n {
                    0
                } else {
                    i + 1
                };
            }
        }
        r
    }

    /// First selectable backend at or cyclically after `start`.
    fn pick_cyclic(&self, start: usize) -> (r: Option<usize>)
        requires
            self.backends@.len() > 0,
            start < self.backends@.len(),
        ensures
            match r {
                Some(i) => spec_pick_from(self.backends@, self.strategy, start as int, 0) == Some(
                    i as int,
                ) && i < self.backends@.len() && spec_selectable(
                    self.strategy,
                    self.backends@[i as int],
                ),
                None => spec_pick_from(self.backends@, self.strategy, start as int, 0) is None,
            },
    {
        let n = self.backends.len();
        let mut k: usize = 0;
        while k < n
            invariant
                0 <= k <= n,
                n == self.backends@.len(),
                n > 0,
                start < n,
                spec_pick_from(self.backends@, self.strategy, start as int, 0) == spec_pick_from(
                    self.backends@,
                    self.strategy,
                    start as int,
                    k as nat,
                ),
            decreases n - k,
        {
            let idx = if k >= n - start {
                k - (n - start)
            } else {
                start + k
            };
            proof {
                assert((start + k) % (n as int) == idx as int) by {
                    if start + k >= n {
                        assert((start + k) - n < n);
                        vstd::arithmetic::div_mod::lemma_mod_sub_multiples_vanish(
                            (start + k) as int,
                            n as int,
                        );
                        vstd::arithmetic::div_mod::lemma_small_mod((start + k - n) as nat, n as nat);
                    } else {
                        vstd::arithmetic::div_mod::lemma_small_mod((start + k) as nat, n as nat);
                    }
                }
            }
            let b = self.backends[idx];
            let ok = match self.strategy {
                LbStrategy::FailoverList => matches!(b.state, BackendState::Healthy),
                _ => !matches!(b.state, BackendState::Dead),
            };
            if ok {
                return Some(idx);
            }
            k = k + 1;
        }
        None
    }

    /// The selectable backend with the lowest latency average.
    fn min_latency(&self) -> (r: Option<usize>)
        ensures
            match r {
                Some(i) => spec_min_latency_from(self.backends@, self.strategy, 0) == Some(
                    i as int,
                ) && i < self.backends@.len() && spec_selectable(
                    self.strategy,
                    self.backends@[i as int],
                ),
                None => spec_min_latency_from(self.backends@, self.strategy, 0) is None,
            },
    {
        let n = self.backends.len();
        let mut k: usize = n;
        let mut best: Option<usize> = None;
        while k > 0
            invariant
                0 <= k <= n,
                n == self.backends@.len(),
                match best {
                    Some(i) => spec_min_latency_from(self.backends@, self.strategy, k as nat)
                        == Some(i as int) && i < n && spec_selectable(
                        self.strategy,
                        self.backends@[i as int],
                    ),
                    None => spec_min_latency_from(self.backends@, self.strategy, k as nat) is None,
                },
            decreases k,
        {
            k = k - 1;
            let b = self.backends[k];
            let ok = match self.strategy {
                LbStrategy::FailoverList => matches!(b.state, BackendState::Healthy),
                _ => !matches!(b.state, BackendState::Dead),
            };
            if ok {
                best = match best {
                    None => Some(k),
                    Some(j) => {
                        if self.backends[k].latency_ewma_usec
                            <= self.backends[j].latency_ewma_usec {
                            Some(k)
                        } else {
                            Some(j)
                        }
                    },
                };
            }
        }
        best
    }
}

/// One feedback step on one backend record.
fn feedback_step(b: Backend, success: bool, latency_usec: u64, now: u64) -> (r: Backend)
    requires
        b.wf(),
    ensures
        r == spec_feedback(b, success, latency_usec, now),
        r.wf(),
{
    let ewma = ((9u128 * b.latency_ewma_usec as u128 + latency_usec as u128) / 10) as u64;
    let w = b.window;
    let window = if success {
        w << 1u64
    } else {
        (w << 1u64) | 1u64
    };
    let window_len = if b.window_len < 64 {
        b.window_len + 1
    } else {
        64
    };
    let base = Backend { latency_ewma_usec: ewma, window, window_len, ..b };
    match b.state {
        BackendState::Healthy => {
            if success {
                Backend { consecutive_failures: 0, ..base }
            } else if b.consecutive_failures >= 2 {
                Backend {
                    state: BackendState::Recovering,
                    consecutive_failures: 0,
                    recovering_failures: 0,
                    consecutive_successes: 0,
                    recovering_since_usec: now,
                    ..base
                }
            } else {
                Backend { consecutive_failures: b.consecutive_failures + 1, ..base }
            }
        },
        BackendState::Recovering => {
            if success {
                if b.consecutive_successes >= 2 {
                    Backend {
                        state: BackendState::Healthy,
                        consecutive_failures: 0,
                        recovering_failures: 0,
                        consecutive_successes: 0,
                        ..base
                    }
                } else {
                    Backend { consecutive_successes: b.consecutive_successes + 1, ..base }
                }
            } else if now > b.recovering_since_usec && now - b.recovering_since_usec
                > RECOVERING_WINDOW_USEC {
                Backend {
                    recovering_failures: 1,
                    consecutive_successes: 0,
                    recovering_since_usec: now,
                    ..base
                }
            } else if b.recovering_failures >= 4 {
                Backend {
                    state: BackendState::Dead,
                    recovering_failures: 0,
                    consecutive_successes: 0,
                    dead_since_usec: now,
                    ..base
                }
            } else {
                Backend {
                    recovering_failures: b.recovering_failures + 1,
                    consecutive_successes: 0,
                    ..base
                }
            }
        },
        BackendState::Dead => base,
    }
}

/// The failover list falls through a backend that is not healthy: with the
/// first backend recovering or dead and the second healthy, every call
/// routes to the second.
pub proof fn lemma_failover_falls_through(bs: Seq<Backend>)
    requires
        bs.len() >= 2,
        !(bs[0].state is Healthy),
        bs[1].state is Healthy,
    ensures
        spec_pick_from(bs, LbStrategy::FailoverList, 0, 0) == Some(1int),
{
    let n = bs.len() as int;
    vstd::arithmetic::div_mod::lemma_small_mod(0, n as nat);
    vstd::arithmetic::div_mod::lemma_small_mod(1, n as nat);
    assert(!spec_selectable(LbStrategy::FailoverList, bs[0]));
    assert(spec_pick_from(bs, LbStrategy::FailoverList, 0, 0) == spec_pick_from(
        bs,
        LbStrategy::FailoverList,
        0,
        1,
    ));
}

/// Three straight failures demote a healthy backend to recovering, and five
/// prompt failures more kill it: the failover path of a dying backend.
pub proof fn lemma_failures_demote_then_kill(b: Backend, latency: u64, now: u64)
    requires
        b.wf(),
        b.state is Healthy,
        b.consecutive_failures == 0,
    ensures
        ({
            let b1 = spec_feedback(b, false, latency, now);
            let b2 = spec_feedback(b1, false, latency, now);
            let b3 = spec_feedback(b2, false, latency, now);
            let b4 = spec_feedback(b3, false, latency, now);
            let b5 = spec_feedback(b4, false, latency, now);
            let b6 = spec_feedback(b5, false, latency, now);
            let b7 = spec_feedback(b6, false, latency, now);
            let b8 = spec_feedback(b7, false, latency, now);
            b1.state is Healthy && b2.state is Healthy && b3.state is Recovering
                && b4.state is Recovering && b5.state is Recovering && b6.state is Recovering
                && b7.state is Recovering && b8.state is Dead
        }),
{
}

/// Three straight successes restore a recovering backend.
pub proof fn lemma_successes_restore(b: Backend, latency: u64, now: u64)
    requires
        b.wf(),
        b.state is Recovering,
        b.consecutive_successes == 0,
    ensures
        ({
            let b1 = spec_feedback(b, true, latency, now);
            let b2 = spec_feedback(b1, true, latency, now);
            let b3 = spec_feedback(b2, true, latency, now);
            b1.state is Recovering && b2.state is Recovering && b3.state is Healthy
        }),
{
}

} // verus!
