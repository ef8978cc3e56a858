//! Connection pool: the set of known cluster nodes, their believed liveness,
//! and the selection of the next node to try for a request.
//!
//! Selection prefers alive nodes in round-robin order. When every node is
//! believed dead, the pool still yields a candidate — the dead node whose
//! resurrect deadline is soonest — rather than failing the whole pool, since
//! the client's liveness view is inherently stale and the cluster may have
//! recovered.

use vstd::prelude::*;

verus! {

/// A node's believed availability, as tracked by the client. Independent of
/// the node's true server-side health.
#[derive(Clone, Copy, Debug, PartialEq, Eq)]
pub enum Liveness {
    Alive,
    /// Dead until the resurrect deadline `until` (a caller-supplied clock
    /// value), after which the node is a candidate for optimistic retry.
    Dead { until: u64 },
}

/// One candidate server endpoint in the cluster.
#[derive(Clone, Debug)]
pub struct Node {
    /// URL/authority the wire request is addressed to.
    pub address: String,
    /// Believed availability.
    pub liveness: Liveness,
    /// Count of consecutive reported failures; keys the exponential backoff.
    pub failures: u64,
}

pub open spec fn node_alive(n: Node) -> bool {
    n.liveness is Alive
}

/// The resurrect deadline of a dead node.
pub open spec fn dead_until(n: Node) -> u64
    recommends
        n.liveness is Dead,
{
    n.liveness->until
}

pub open spec fn some_alive(nodes: Seq<Node>) -> bool {
    exists|i: int| 0 <= i < nodes.len() && node_alive(nodes[i])
}

/// Saturating doubling, the step of the exponential backoff.
pub open spec fn sat_double(x: u64) -> u64 {
    if x * 2 > u64::MAX {
        u64::MAX
    } else {
        (x * 2) as u64
    }
}

/// `base * 2^e`, saturating at `u64::MAX`.
pub open spec fn resurrect_delay_spec(base: u64, e: nat) -> u64
    decreases e,
{
    if e == 0 {
        base
    } else {
        sat_double(resurrect_delay_spec(base, (e - 1) as nat))
    }
}

/// The exponent the backoff uses for a node with `failures` consecutive
/// failures: the counter, capped at the configured `cap`.
pub open spec fn backoff_exponent(failures: u64, cap: u64) -> u64 {
    if failures < cap {
        failures
    } else {
        cap
    }
}

/// The node as `report_failure` leaves it: counter bumped, dead until
/// `now + base * 2^min(counter, cap)` (saturating).
pub open spec fn node_after_failure(n: Node, base: u64, cap: u64, now: u64) -> Node {
    let f = if n.failures < u64::MAX {
        (n.failures + 1) as u64
    } else {
        u64::MAX
    };
    Node {
        address: n.address,
        liveness: Liveness::Dead {
            until: now.saturating_add(
                resurrect_delay_spec(base, backoff_exponent(f, cap) as nat),
            ),
        },
        failures: f,
    }
}

/// The node as `report_success` leaves it: alive, counter reset.
pub open spec fn node_after_success(n: Node) -> Node {
    Node { address: n.address, liveness: Liveness::Alive, failures: 0 }
}

/// Position of `i` in the cyclic scan order that starts at `start`:
/// `start` itself has distance 0, its successor 1, and so on around the ring.
pub open spec fn cyc_dist(len: int, start: int, i: int) -> int {
    if i >= start {
        i - start
    } else {
        i + len - start
    }
}

/// The index reached after `m` steps of the cyclic scan that starts at
/// `start`: the inverse of `cyc_dist` in its last argument.
pub open spec fn cyc_index(len: int, start: int, m: int) -> int {
    if start + m < len {
        start + m
    } else {
        start + m - len
    }
}

/// Where a round-robin scan begins: just after the cursor, wrapping.
pub open spec fn rr_start(cursor: int, len: int) -> int {
    if cursor + 1 < len {
        cursor + 1
    } else {
        0
    }
}

/// The ordered collection of known nodes, the round-robin cursor, and the
/// backoff configuration. Nodes are created at pool construction and are
/// never destroyed, only marked dead or alive.
#[derive(Clone, Debug)]
pub struct ConnectionPool {
    nodes: Vec<Node>,
    cursor: usize,
    base_delay: u64,
    delay_cap: u64,
}

impl View for ConnectionPool {
    type V = Seq<Node>;

    closed spec fn view(&self) -> Seq<Node> {
        self.nodes@
    }
}

impl ConnectionPool {
    /// The configured backoff base delay.
    pub closed spec fn backoff_base(&self) -> u64 {
        self.base_delay
    }

    /// The configured cap on the backoff exponent.
    pub closed spec fn backoff_cap(&self) -> u64 {
        self.delay_cap
    }

    /// The round-robin cursor: index of the most recently selected alive
    /// node.
    pub closed spec fn cursor_at(&self) -> int {
        self.cursor as int
    }

    /// Well-formedness: at least one node always exists, the cursor is in
    /// range, and the backoff exponent cap fits the 64-bit deadline.
    pub open spec fn wf(&self) -> bool {
        &&& self@.len() >= 1
        &&& 0 <= self.cursor_at() < self@.len()
        &&& self.backoff_cap() <= 63
    }

    /// Decides well-formedness, for callers outside verified code.
    pub fn is_wf(&self) -> (r: bool)
        ensures
            r == self.wf(),
    {
        self.nodes.len() >= 1 && self.cursor < self.nodes.len() && self.delay_cap <= 63
    }

    /// Builds a pool of alive nodes from the seed addresses, in order.
    pub fn new(addresses: Vec<String>, base_delay: u64, delay_cap: u64) -> (r: Self)
        requires
            addresses@.len() >= 1,
            delay_cap <= 63,
        ensures
            r.wf(),
            r@.len() == addresses@.len(),
            forall|i: int| 0 <= i < addresses@.len() ==> (#[trigger] r@[i]) == (Node {
                address: addresses@[i],
                liveness: Liveness::Alive,
                failures: 0,
            }),
            r.backoff_base() == base_delay,
            r.backoff_cap() == delay_cap,
            r.cursor_at() == addresses@.len() - 1,
    {
        let mut nodes: Vec<Node> = Vec::new();
        let mut i: usize = 0;
        while i < addresses.len()
            invariant
                i <= addresses@.len(),
                nodes@.len() == i,
                forall|j: int| 0 <= j < i ==> (#[trigger] nodes@[j]) == (Node {
                    address: addresses@[j],
                    liveness: Liveness::Alive,
                    failures: 0,
                }),
            decreases addresses@.len() - i,
        {
            let address = addresses[i].clone();
            nodes.push(Node { address, liveness: Liveness::Alive, failures: 0 });
            i += 1;
        }
        let cursor = nodes.len() - 1;
        ConnectionPool { nodes, cursor, base_delay, delay_cap }
    }

    /// How many nodes the pool knows.
    pub fn len(&self) -> (r: usize)
        ensures
            r == self@.len(),
    {
        self.nodes.len()
    }

    /// A copy of the address of node `i`.
    pub fn address_of(&self, i: usize) -> (r: String)
        requires
            i < self@.len(),
        ensures
            r@ == self@[i as int].address@,
    {
        self.nodes[i].address.clone()
    }

    /// The believed liveness of node `i`.
    pub fn liveness_of(&self, i: usize) -> (r: Liveness)
        requires
            i < self@.len(),
        ensures
            r == self@[i as int].liveness,
    {
        self.nodes[i].liveness
    }

    /// The consecutive-failure counter of node `i`.
    pub fn failures_of(&self, i: usize) -> (r: u64)
        requires
            i < self@.len(),
        ensures
            r == self@[i as int].failures,
    {
        self.nodes[i].failures
    }

    /// Selects the node to try next; with at least one node in the pool this
    /// never fails and never blocks.
    ///
    /// If any node is alive, the result is the alive node closest after the
    /// cursor in cyclic order (round-robin), and the cursor moves to it.
    /// If none is alive, the result is a dead node with the soonest resurrect
    /// deadline, and the cursor stays. Selection never changes any node's
    /// liveness or failure counter.
    pub fn next(&mut self) -> (r: usize)
        requires
            old(self).wf(),
        ensures
            final(self).wf(),
            r < old(self)@.len(),
            final(self)@ == old(self)@,
            final(self).backoff_base() == old(self).backoff_base(),
            final(self).backoff_cap() == old(self).backoff_cap(),
            some_alive(old(self)@) ==> {
                &&& node_alive(old(self)@[r as int])
                &&& final(self).cursor_at() == r
                &&& forall|j: int|
                    0 <= j < old(self)@.len() && node_alive(old(self)@[j])
                        ==> cyc_dist(
                        old(self)@.len() as int,
                        rr_start(old(self).cursor_at(), old(self)@.len() as int),
                        r as int,
                    ) <= cyc_dist(
                        old(self)@.len() as int,
                        rr_start(old(self).cursor_at(), old(self)@.len() as int),
                        j,
                    )
            },
            !some_alive(old(self)@) ==> {
                &&& old(self)@[r as int].liveness is Dead
                &&& final(self).cursor_at() == old(self).cursor_at()
                &&& forall|j: int|
                    0 <= j < old(self)@.len() ==> dead_until(old(self)@[r as int])
                        <= dead_until(#[trigger] old(self)@[j])
            },
    {
        let len = self.nodes.len();
        let start = if self.cursor + 1 < len {
            self.cursor + 1
        } else {
            0
        };
        let ghost s = start as int;
        let ghost l = len as int;
        let mut k: usize = 0;
        while k < len
            invariant
                old(self).wf(),
                self == old(self),
                len == self@.len(),
                start < len,
                s == start as int,
                s == rr_start(old(self).cursor_at(), l),
                l == len as int,
                k <= len,
                forall|m: int|
                    0 <= m < k ==> !node_alive(self@[#[trigger] cyc_index(l, s, m)]),
            decreases len - k,
        {
            let idx = if k < len - start {
                start + k
            } else {
                k - (len - start)
            };
            proof {
                assert(idx as int == cyc_index(l, s, k as int));
                assert(cyc_dist(l, s, idx as int) == k);
            }
            let alive = match &self.nodes[idx].liveness {
                Liveness::Alive => true,
                Liveness::Dead { .. } => false,
            };
            if alive {
                self.cursor = idx;
                proof {
                    assert(forall|j: int|
                        0 <= j < l && node_alive(self@[j]) ==> cyc_dist(l, s, idx as int)
                            <= cyc_dist(l, s, j)) by {
                        assert forall|j: int|
                            0 <= j < l && node_alive(self@[j]) implies cyc_dist(l, s, idx as int)
                            <= cyc_dist(l, s, j) by {
                            let d = cyc_dist(l, s, j);
                            if d < k {
                                assert(j == cyc_index(l, s, d));
                                assert(!node_alive(self@[j]));
                            }
                        }
                    }
                }
                return idx;
            }
            k += 1;
        }
        proof {
            assert forall|j: int| 0 <= j < l implies !node_alive(self@[j]) by {
                let d = cyc_dist(l, s, j);
                assert(0 <= d < l);
                assert(j == cyc_index(l, s, d));
            }
            assert(!some_alive(self@));
        }
        let mut best: usize = 0;
        let mut i: usize = 1;
        while i < len
            invariant
                old(self).wf(),
                self == old(self),
                len == self@.len(),
                forall|j: int| 0 <= j < l ==> !node_alive(#[trigger] self@[j]),
                l == len as int,
                best < i <= len,
                forall|j: int|
                    0 <= j < i ==> dead_until(self@[best as int]) <= dead_until(
                        #[trigger] self@[j],
                    ),
            decreases len - i,
        {
            let di = match &self.nodes[i].liveness {
                Liveness::Dead { until } => *until,
                Liveness::Alive => 0,
            };
            let db = match &self.nodes[best].liveness {
                Liveness::Dead { until } => *until,
                Liveness::Alive => 0,
            };
            if di < db {
                best = i;
            }
            i += 1;
        }
        best
    }

    /// Marks the node alive and resets its resurrect counter, after a wire
    /// round-trip against it completed. Nothing else changes.
    pub fn report_success(&mut self, node: usize)
        requires
            old(self).wf(),
            node < old(self)@.len(),
        ensures
            final(self).wf(),
            final(self)@ == old(self)@.update(
                node as int,
                node_after_success(old(self)@[node as int]),
            ),
            final(self).backoff_base() == old(self).backoff_base(),
            final(self).backoff_cap() == old(self).backoff_cap(),
            final(self).cursor_at() == old(self).cursor_at(),
    {
        let n = &mut self.nodes[node];
        n.liveness = Liveness::Alive;
        n.failures = 0;
    }

    /// Marks the node dead after a reported failure: the consecutive-failure
    /// counter increments and the resurrect deadline becomes
    /// `now + base * 2^min(counter, cap)` (saturating). Nothing else changes.
    pub fn report_failure(&mut self, node: usize, now: u64)
        requires
            old(self).wf(),
            node < old(self)@.len(),
        ensures
            final(self).wf(),
            final(self)@ == old(self)@.update(
                node as int,
                node_after_failure(
                    old(self)@[node as int],
                    old(self).backoff_base(),
                    old(self).backoff_cap(),
                    now,
                ),
            ),
            final(self).backoff_base() == old(self).backoff_base(),
            final(self).backoff_cap() == old(self).backoff_cap(),
            final(self).cursor_at() == old(self).cursor_at(),
    {
        let base = self.base_delay;
        let cap = self.delay_cap;
        let n = &mut self.nodes[node];
        if n.failures < u64::MAX {
            n.failures = n.failures + 1;
        }
        let e = if n.failures < cap {
            n.failures
        } else {
            cap
        };
        let delay = resurrect_delay(base, e);
        n.liveness = Liveness::Dead { until: now.saturating_add(delay) };
    }
}

/// Computes `base * 2^e`, saturating at `u64::MAX`.
pub fn resurrect_delay(base: u64, e: u64) -> (r: u64)
    ensures
        r == resurrect_delay_spec(base, e as nat),
{
    let mut d = base;
    let mut i: u64 = 0;
    while i < e
        invariant
            i <= e,
            d == resurrect_delay_spec(base, i as nat),
        decreases e - i,
    {
        if d > u64::MAX / 2 {
            d = u64::MAX;
        } else {
            d = d * 2;
        }
        i += 1;
    }
    d
}

/// The backoff delay never decreases as the exponent grows.
pub proof fn lemma_delay_monotonic_in_exponent(base: u64, e1: nat, e2: nat)
    requires
        e1 <= e2,
    ensures
        resurrect_delay_spec(base, e1) <= resurrect_delay_spec(base, e2),
    decreases e2,
{
    if e1 < e2 {
        lemma_delay_monotonic_in_exponent(base, e1, (e2 - 1) as nat);
    }
}

/// After `k` consecutive reported failures the computed resurrect delay is
/// non-decreasing in `k`, and never exceeds the delay at the configured cap.
pub proof fn lemma_backoff_monotonic_and_capped(base: u64, cap: u64, k1: u64, k2: u64)
    requires
        k1 <= k2,
    ensures
        resurrect_delay_spec(base, backoff_exponent(k1, cap) as nat) <= resurrect_delay_spec(
            base,
            backoff_exponent(k2, cap) as nat,
        ),
        resurrect_delay_spec(base, backoff_exponent(k2, cap) as nat) <= resurrect_delay_spec(
            base,
            cap as nat,
        ),
{
    lemma_delay_monotonic_in_exponent(
        base,
        backoff_exponent(k1, cap) as nat,
        backoff_exponent(k2, cap) as nat,
    );
    lemma_delay_monotonic_in_exponent(base, backoff_exponent(k2, cap) as nat, cap as nat);
}

/// After `k` consecutive reported failures at the same clock value, a
/// node's computed resurrect deadline — `now` plus the backoff delay, as
/// `node_after_failure` sets it — is non-decreasing in `k` and never
/// exceeds the deadline computed at the configured cap.
pub proof fn lemma_resurrect_deadline_monotonic(base: u64, cap: u64, now: u64, k1: u64, k2: u64)
    requires
        k1 <= k2,
    ensures
        now.saturating_add(resurrect_delay_spec(base, backoff_exponent(k1, cap) as nat))
            <= now.saturating_add(resurrect_delay_spec(base, backoff_exponent(k2, cap) as nat)),
        now.saturating_add(resurrect_delay_spec(base, backoff_exponent(k2, cap) as nat))
            <= now.saturating_add(resurrect_delay_spec(base, cap as nat)),
{
    lemma_backoff_monotonic_and_capped(base, cap, k1, k2);
}

} // verus!
