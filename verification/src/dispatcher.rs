//! Request dispatcher: the per-call retry state machine.
//!
//! One logical call moves through `Selecting -> Sending -> {Succeeded,
//! Retrying, Failed}`; `Retrying` resumes at `Selecting`. Transport-level
//! failures and retryable server statuses are reported to the pool and
//! absorbed by retrying against another node, up to the policy's attempt
//! budget; every other status is a successful outcome, returned as-is.
//!
//! The wire call itself is I/O the caller performs between `select_step` and
//! `outcome_step`; the dispatcher only decides. `dispatch` folds the machine
//! over a given sequence of per-attempt outcomes, as a bounded loop.
//!
//! Retrying a non-idempotent request after an ambiguous failure (a timeout
//! with unknown server-side effect) risks duplicate application; the
//! dispatcher does not attempt at-most-once semantics — that is a documented
//! caller responsibility tied to the method's idempotency.

use vstd::prelude::*;
use crate::http::Response;
use crate::pool::{
    ConnectionPool, node_after_failure, node_after_success, node_alive, some_alive,
};

verus! {

/// A transport-level failure of one wire attempt: the connection itself
/// broke. All of these are retryable against another node.
#[derive(Clone, Copy, Debug, PartialEq, Eq, Structural)]
pub enum WireFailure {
    Refused,
    Reset,
    TimedOut,
    Tls,
}

/// What one wire attempt came to: either the connection failed, or a
/// response completed (whatever its status).
#[derive(Clone, Debug)]
pub enum AttemptOutcome {
    Failure { kind: WireFailure },
    Completed { response: Response },
}

/// The terminal error of a failed call: either no node could be selected
/// within the attempt budget, or the last underlying transport failure;
/// a serialization failure is a caller bug, surfaced immediately without
/// consuming a retry attempt.
#[derive(Clone, Debug)]
pub enum TransportError {
    NoAvailableNode,
    Transport { kind: WireFailure },
    Serialization { detail: String },
}

/// Immutable retry configuration: the attempt budget and which server-error
/// statuses are retryable.
#[derive(Clone, Debug)]
pub struct RetryPolicy {
    pub max_attempts: u64,
    /// The 5xx statuses treated as node failure, e.g. 502/503/504.
    pub retryable_statuses: Vec<u16>,
}

/// A status triggers a retry only when it lies in the server-error range and
/// the policy lists it; every other status is the caller's to interpret.
pub open spec fn retryable_status(policy: RetryPolicy, status: u16) -> bool {
    500 <= status < 600 && policy.retryable_statuses@.contains(status)
}

/// Whether one attempt counts as a node failure: a wire failure, or a
/// completed response with a retryable server-error status.
pub open spec fn failed_attempt(policy: RetryPolicy, o: AttemptOutcome) -> bool {
    match o {
        AttemptOutcome::Failure { .. } => true,
        AttemptOutcome::Completed { response } => retryable_status(policy, response.status),
    }
}

/// How many selection counters are in use: the number of distinct nodes
/// this call has selected so far.
pub open spec fn count_nonzero(s: Seq<u64>) -> int
    decreases s.len(),
{
    if s.len() == 0 {
        0
    } else {
        (if s[0] > 0 {
            1int
        } else {
            0int
        }) + count_nonzero(s.drop_first())
    }
}

proof fn lemma_count_nonzero_update(s: Seq<u64>, i: int, v: u64)
    requires
        0 <= i < s.len(),
        s[i] == 0,
        v > 0,
    ensures
        count_nonzero(s.update(i, v)) == count_nonzero(s) + 1,
    decreases s.len(),
{
    let u = s.update(i, v);
    if i == 0 {
        assert(u.drop_first() =~= s.drop_first());
    } else {
        assert(u.drop_first() =~= s.drop_first().update(i - 1, v));
        lemma_count_nonzero_update(s.drop_first(), i - 1, v);
    }
}

proof fn lemma_count_nonzero_all_zero(s: Seq<u64>)
    requires
        forall|j: int| 0 <= j < s.len() ==> #[trigger] s[j] == 0,
    ensures
        count_nonzero(s) == 0,
    decreases s.len(),
{
    if s.len() > 0 {
        assert(forall|j: int|
            0 <= j < s.drop_first().len() ==> #[trigger] s.drop_first()[j] == s[j + 1]);
        lemma_count_nonzero_all_zero(s.drop_first());
    }
}

proof fn lemma_count_nonzero_all_positive(s: Seq<u64>)
    requires
        forall|j: int| 0 <= j < s.len() ==> #[trigger] s[j] > 0,
    ensures
        count_nonzero(s) == s.len(),
    decreases s.len(),
{
    if s.len() > 0 {
        assert(forall|j: int|
            0 <= j < s.drop_first().len() ==> #[trigger] s.drop_first()[j] == s[j + 1]);
        lemma_count_nonzero_all_positive(s.drop_first());
    }
}

/// The error a call fails with: the last transport failure if one occurred,
/// otherwise the pool gave nothing workable.
pub open spec fn terminal_error(last: Option<WireFailure>) -> TransportError {
    match last {
        Option::None => TransportError::NoAvailableNode,
        Option::Some(kind) => TransportError::Transport { kind },
    }
}

/// The most recent transport-level failure in a run of attempts, if any:
/// what a call that exhausts its budget reports.
pub open spec fn last_wire_failure_of(outcomes: Seq<AttemptOutcome>) -> Option<WireFailure>
    decreases outcomes.len(),
{
    if outcomes.len() == 0 {
        Option::None
    } else {
        match outcomes.last() {
            AttemptOutcome::Failure { kind } => Option::Some(kind),
            AttemptOutcome::Completed { .. } => last_wire_failure_of(outcomes.drop_last()),
        }
    }
}

/// The state of one logical call. `selections` counts, per node, how often
/// this call selected it: a call that selects one node more times than there
/// are distinct nodes is exhausted. `last_wire_failure` remembers the most
/// recent transport-level failure for the terminal error.
#[derive(Clone, Debug)]
pub enum CallState {
    Selecting { attempts: u64, selections: Vec<u64>, last_wire_failure: Option<WireFailure> },
    Sending {
        node: usize,
        attempts: u64,
        selections: Vec<u64>,
        last_wire_failure: Option<WireFailure>,
    },
    Retrying { attempts: u64, selections: Vec<u64>, last_wire_failure: Option<WireFailure> },
    Succeeded { response: Response },
    Failed { error: TransportError },
}

/// The request-dispatch layer: a pool of candidate nodes and the retry
/// policy, shared by every call.
#[derive(Clone, Debug)]
pub struct Transport {
    pub pool: ConnectionPool,
    pub policy: RetryPolicy,
}

/// Consistency of a call state with the transport it runs against.
pub open spec fn call_wf(t: Transport, s: CallState) -> bool {
    match s {
        CallState::Selecting { attempts, selections, .. } => {
            &&& selections@.len() == t.pool@.len()
            &&& attempts <= t.policy.max_attempts
            &&& forall|j: int|
                0 <= j < selections@.len() ==> #[trigger] selections@[j] <= t.pool@.len()
        },
        CallState::Sending { node, attempts, selections, .. } => {
            &&& node < t.pool@.len()
            &&& selections@.len() == t.pool@.len()
            &&& attempts < t.policy.max_attempts
            &&& forall|j: int|
                0 <= j < selections@.len() ==> #[trigger] selections@[j] <= t.pool@.len()
        },
        CallState::Retrying { attempts, selections, .. } => {
            &&& selections@.len() == t.pool@.len()
            &&& attempts <= t.policy.max_attempts
            &&& forall|j: int|
                0 <= j < selections@.len() ==> #[trigger] selections@[j] <= t.pool@.len()
        },
        CallState::Succeeded { .. } => true,
        CallState::Failed { .. } => true,
    }
}

/// A retrying call resumes selecting, with its attempt count, selection
/// counts and last failure carried over unchanged.
pub fn resume(state: CallState) -> (r: CallState)
    requires
        state is Retrying,
    ensures
        r == (CallState::Selecting {
            attempts: state->Retrying_attempts,
            selections: state->Retrying_selections,
            last_wire_failure: state->Retrying_last_wire_failure,
        }),
{
    match state {
        CallState::Retrying { attempts, selections, last_wire_failure } => {
            CallState::Selecting { attempts, selections, last_wire_failure }
        },
        _ => vstd::pervasive::unreached(),
    }
}

impl Transport {
    pub fn new(pool: ConnectionPool, policy: RetryPolicy) -> (r: Self)
        ensures
            r.pool == pool,
            r.policy == policy,
    {
        Transport { pool, policy }
    }

    /// Whether the policy retries a completed response of this status.
    #[verifier::loop_isolation(false)]
    pub fn is_retryable_status(&self, status: u16) -> (r: bool)
        ensures
            r == retryable_status(self.policy, status),
    {
        if status < 500 || status >= 600 {
            return false;
        }
        let mut i: usize = 0;
        while i < self.policy.retryable_statuses.len()
            invariant
                i <= self.policy.retryable_statuses@.len(),
                forall|j: int| 0 <= j < i ==> self.policy.retryable_statuses@[j] != status,
            decreases self.policy.retryable_statuses@.len() - i,
        {
            if self.policy.retryable_statuses[i] == status {
                proof {
                    assert(self.policy.retryable_statuses@.contains(status));
                }
                return true;
            }
            i += 1;
        }
        false
    }

    /// Begins one logical call: no attempts made, no node selected yet.
    pub fn start_call(&self) -> (s: CallState)
        requires
            self.pool.wf(),
        ensures
            call_wf(*self, s),
            s matches CallState::Selecting { attempts, selections, last_wire_failure } && attempts
                == 0 && selections@ == Seq::<u64>::new(self.pool@.len(), |i: int| 0u64)
                && last_wire_failure is None,
    {
        let len = self.pool.len();
        let mut selections: Vec<u64> = Vec::new();
        let mut i: usize = 0;
        while i < len
            invariant
                i <= len,
                selections@.len() == i,
                forall|j: int| 0 <= j < i ==> #[trigger] selections@[j] == 0u64,
            decreases len - i,
        {
            selections.push(0);
            i += 1;
        }
        proof {
            assert(selections@ =~= Seq::<u64>::new(self.pool@.len(), |i: int| 0u64));
        }
        CallState::Selecting { attempts: 0, selections, last_wire_failure: Option::None }
    }

    /// One `Selecting` step: fail if the attempt budget is spent or the pool
    /// is exhausted for this call, otherwise ask the pool for the node to
    /// try. Selection never changes any node's liveness or failure counter,
    /// so a call abandoned after this step leaves the pool's liveness model
    /// exactly as it found it.
    pub fn select_step(&mut self, state: CallState) -> (next: CallState)
        requires
            old(self).pool.wf(),
            state is Selecting,
            call_wf(*old(self), state),
        ensures
            final(self).pool.wf(),
            final(self).pool@ == old(self).pool@,
            final(self).pool.backoff_base() == old(self).pool.backoff_base(),
            final(self).pool.backoff_cap() == old(self).pool.backoff_cap(),
            final(self).policy == old(self).policy,
            call_wf(*final(self), next),
            next is Sending || next is Failed,
            state->Selecting_attempts >= old(self).policy.max_attempts ==> next
                == (CallState::Failed {
                error: terminal_error(state->Selecting_last_wire_failure),
            }),
            next matches CallState::Sending { node, attempts, selections, last_wire_failure }
                ==> {
                &&& node < old(self).pool@.len()
                &&& some_alive(old(self).pool@) ==> node_alive(old(self).pool@[node as int])
                &&& attempts == state->Selecting_attempts
                &&& last_wire_failure == state->Selecting_last_wire_failure
                &&& selections@ == state->Selecting_selections@.update(
                    node as int,
                    (state->Selecting_selections@[node as int] + 1) as u64,
                )
            },
            next is Failed ==> next->Failed_error == terminal_error(
                state->Selecting_last_wire_failure,
            ),
            (next is Failed && state->Selecting_attempts < old(self).policy.max_attempts)
                ==> exists|n: int|
                0 <= n < old(self).pool@.len() && (some_alive(old(self).pool@)
                    ==> node_alive(old(self).pool@[n]))
                    && state->Selecting_selections@[n] + 1 > old(self).pool@.len(),
    {
        match state {
            CallState::Selecting { attempts, mut selections, last_wire_failure } => {
                if attempts >= self.policy.max_attempts {
                    let error = match last_wire_failure {
                        Option::None => TransportError::NoAvailableNode,
                        Option::Some(kind) => TransportError::Transport { kind },
                    };
                    return CallState::Failed { error };
                }
                let node = self.pool.next();
                let len = self.pool.len();
                if selections[node] >= len as u64 {
                    let error = match last_wire_failure {
                        Option::None => TransportError::NoAvailableNode,
                        Option::Some(kind) => TransportError::Transport { kind },
                    };
                    return CallState::Failed { error };
                }
                let count = selections[node] + 1;
                selections[node] = count;
                CallState::Sending { node, attempts, selections, last_wire_failure }
            },
            _ => vstd::pervasive::unreached(),
        }
    }

    /// One `Sending` step: interpret what the wire attempt came to.
    ///
    /// A wire failure, or a completed response whose status the policy
    /// retries, is reported to the pool as node failure and the call moves
    /// to `Retrying`. Any other completed response — client errors included,
    /// since they indicate a request problem, not node unavailability — is
    /// reported as node success and returned as-is in `Succeeded`.
    pub fn outcome_step(&mut self, state: CallState, outcome: AttemptOutcome, now: u64) -> (next:
        CallState)
        requires
            old(self).pool.wf(),
            state is Sending,
            call_wf(*old(self), state),
        ensures
            final(self).pool.wf(),
            final(self).pool@.len() == old(self).pool@.len(),
            final(self).pool.backoff_base() == old(self).pool.backoff_base(),
            final(self).pool.backoff_cap() == old(self).pool.backoff_cap(),
            final(self).pool.cursor_at() == old(self).pool.cursor_at(),
            final(self).policy == old(self).policy,
            call_wf(*final(self), next),
            outcome matches AttemptOutcome::Failure { kind } ==> {
                &&& final(self).pool@ == old(self).pool@.update(
                    state->Sending_node as int,
                    node_after_failure(
                        old(self).pool@[state->Sending_node as int],
                        old(self).pool.backoff_base(),
                        old(self).pool.backoff_cap(),
                        now,
                    ),
                )
                &&& next == (CallState::Retrying {
                    attempts: (state->Sending_attempts + 1) as u64,
                    selections: state->Sending_selections,
                    last_wire_failure: Option::Some(kind),
                })
            },
            outcome matches AttemptOutcome::Completed { response } ==> {
                &&& retryable_status(old(self).policy, response.status) ==> {
                    &&& final(self).pool@ == old(self).pool@.update(
                        state->Sending_node as int,
                        node_after_failure(
                            old(self).pool@[state->Sending_node as int],
                            old(self).pool.backoff_base(),
                            old(self).pool.backoff_cap(),
                            now,
                        ),
                    )
                    &&& next == (CallState::Retrying {
                        attempts: (state->Sending_attempts + 1) as u64,
                        selections: state->Sending_selections,
                        last_wire_failure: state->Sending_last_wire_failure,
                    })
                }
                &&& !retryable_status(old(self).policy, response.status) ==> {
                    &&& final(self).pool@ == old(self).pool@.update(
                        state->Sending_node as int,
                        node_after_success(old(self).pool@[state->Sending_node as int]),
                    )
                    &&& next == (CallState::Succeeded { response })
                }
            },
    {
        match state {
            CallState::Sending { node, attempts, selections, last_wire_failure } => {
                match outcome {
                    AttemptOutcome::Failure { kind } => {
                        self.pool.report_failure(node, now);
                        CallState::Retrying {
                            attempts: attempts + 1,
                            selections,
                            last_wire_failure: Option::Some(kind),
                        }
                    },
                    AttemptOutcome::Completed { response } => {
                        if self.is_retryable_status(response.status) {
                            self.pool.report_failure(node, now);
                            CallState::Retrying {
                                attempts: attempts + 1,
                                selections,
                                last_wire_failure,
                            }
                        } else {
                            self.pool.report_success(node);
                            CallState::Succeeded { response }
                        }
                    },
                }
            },
            _ => vstd::pervasive::unreached(),
        }
    }

    /// Runs one logical call to its terminal state, as a bounded loop over
    /// the retry state machine: `outcomes[i]` is what the `i`-th wire
    /// attempt came to. Returns the terminal state and the number of
    /// attempts consumed.
    ///
    /// Retryable failures are fully absorbed: the call returns `Succeeded`
    /// exactly when some attempt within budget completed with a
    /// non-retryable status, and every attempt before it failed; it returns
    /// `Failed` only when every attempt it consumed failed.
    #[verifier::loop_isolation(false)]
    pub fn dispatch(&mut self, outcomes: Vec<AttemptOutcome>, now: u64) -> (r: (CallState, u64))
        requires
            old(self).pool.wf(),
            outcomes@.len() >= old(self).policy.max_attempts,
        ensures
            final(self).pool.wf(),
            final(self).pool@.len() == old(self).pool@.len(),
            final(self).pool.backoff_base() == old(self).pool.backoff_base(),
            final(self).pool.backoff_cap() == old(self).pool.backoff_cap(),
            final(self).policy == old(self).policy,
            r.0 is Succeeded || r.0 is Failed,
            r.1 <= old(self).policy.max_attempts,
            r.1 <= outcomes@.len(),
            r.0 matches CallState::Succeeded { response } ==> {
                &&& r.1 >= 1
                &&& outcomes@[r.1 - 1] == (AttemptOutcome::Completed { response })
                &&& !retryable_status(old(self).policy, response.status)
                &&& forall|i: int|
                    0 <= i < r.1 - 1 ==> failed_attempt(old(self).policy, #[trigger] outcomes@[i])
            },
            r.0 is Failed ==> forall|i: int|
                0 <= i < r.1 ==> failed_attempt(old(self).policy, #[trigger] outcomes@[i]),
            (forall|i: int|
                0 <= i < outcomes@.len() ==> failed_attempt(
                    old(self).policy,
                    #[trigger] outcomes@[i],
                )) ==> r.0 is Failed,
            (r.0 is Failed && old(self).policy.max_attempts >= 1) ==> r.1 >= 1,
            r.0 matches CallState::Failed { error } ==> error == terminal_error(
                last_wire_failure_of(outcomes@.take(r.1 as int)),
            ),
            ((forall|i: int|
                0 <= i < outcomes@.len() ==> failed_attempt(
                    old(self).policy,
                    #[trigger] outcomes@[i],
                )) && (forall|j: int|
                0 <= j < old(self).pool@.len() ==> node_alive(#[trigger] old(self).pool@[j]))
                && old(self).pool@.len() >= old(self).policy.max_attempts) ==> r.1 == old(
                self,
            ).policy.max_attempts,
    {
        let ghost orig = outcomes@;
        let ghost policy0 = self.policy;
        let ghost hyp = (forall|i: int|
            0 <= i < orig.len() ==> failed_attempt(policy0, #[trigger] orig[i])) && (forall|
            j: int,
        |
            0 <= j < old(self).pool@.len() ==> node_alive(#[trigger] old(self).pool@[j]))
            && old(self).pool@.len() >= policy0.max_attempts;
        let mut rest = outcomes;
        let mut state = self.start_call();
        let mut made: u64 = 0;
        proof {
            lemma_count_nonzero_all_zero(state->Selecting_selections@);
            assert(orig.take(0) =~= Seq::<AttemptOutcome>::empty());
        }
        loop
            invariant
                self.pool.wf(),
                self.policy == policy0,
                self.pool@.len() == old(self).pool@.len(),
                self.pool.backoff_base() == old(self).pool.backoff_base(),
                self.pool.backoff_cap() == old(self).pool.backoff_cap(),
                policy0 == old(self).policy,
                state is Selecting,
                call_wf(*self, state),
                state->Selecting_attempts == made,
                made <= policy0.max_attempts,
                orig.len() >= policy0.max_attempts,
                rest@ == orig.skip(made as int),
                forall|i: int| 0 <= i < made ==> failed_attempt(policy0, #[trigger] orig[i]),
                made == 0 ==> forall|j: int|
                    0 <= j < state->Selecting_selections@.len()
                        ==> #[trigger] state->Selecting_selections@[j] == 0u64,
                state->Selecting_last_wire_failure == last_wire_failure_of(
                    orig.take(made as int),
                ),
                hyp ==> count_nonzero(state->Selecting_selections@) == made,
                hyp ==> forall|j: int|
                    0 <= j < state->Selecting_selections@.len()
                        ==> ((#[trigger] state->Selecting_selections@[j] > 0) <==> !node_alive(
                        self.pool@[j],
                    )),
            decreases policy0.max_attempts - made,
        {
            let ghost sel_before = state->Selecting_selections@;
            let selected = self.select_step(state);
            match selected {
                CallState::Failed { error } => {
                    proof {
                        if hyp && made < policy0.max_attempts {
                            if some_alive(self.pool@) {
                                let n = choose|n: int|
                                    0 <= n < self.pool@.len() && (some_alive(self.pool@)
                                        ==> node_alive(self.pool@[n])) && sel_before[n] + 1
                                        > self.pool@.len();
                                assert(sel_before[n] == 0);
                            } else {
                                assert(forall|j: int|
                                    0 <= j < sel_before.len() ==> #[trigger] sel_before[j] > 0);
                                lemma_count_nonzero_all_positive(sel_before);
                            }
                            assert(false);
                        }
                    }
                    return (CallState::Failed { error }, made);
                },
                CallState::Sending { node, attempts, selections, last_wire_failure } => {
                    proof {
                        if hyp {
                            if !some_alive(self.pool@) {
                                assert(forall|j: int|
                                    0 <= j < sel_before.len() ==> #[trigger] sel_before[j] > 0);
                                lemma_count_nonzero_all_positive(sel_before);
                                assert(false);
                            }
                            assert(node_alive(self.pool@[node as int]));
                            assert(sel_before[node as int] == 0);
                            lemma_count_nonzero_update(
                                sel_before,
                                node as int,
                                (sel_before[node as int] + 1) as u64,
                            );
                        }
                    }
                    let sending = CallState::Sending {
                        node,
                        attempts,
                        selections,
                        last_wire_failure,
                    };
                    let outcome = rest.remove(0);
                    let ghost taken = outcome;
                    proof {
                        assert(orig.skip(made as int)[0] == orig[made as int]);
                        assert(rest@ =~= orig.skip(made as int + 1));
                    }
                    let after = self.outcome_step(sending, outcome, now);
                    match after {
                        CallState::Succeeded { response } => {
                            proof {
                                if hyp {
                                    assert(failed_attempt(policy0, taken));
                                    assert(false);
                                }
                            }
                            return (CallState::Succeeded { response }, made + 1);
                        },
                        CallState::Retrying { attempts, selections, last_wire_failure } => {
                            proof {
                                assert(orig.take(made as int + 1).drop_last() =~= orig.take(
                                    made as int,
                                ));
                                assert(orig.take(made as int + 1).last() == orig[made as int]);
                            }
                            state = CallState::Selecting {
                                attempts,
                                selections,
                                last_wire_failure,
                            };
                            made = made + 1;
                        },
                        _ => {
                            return vstd::pervasive::unreached();
                        },
                    }
                },
                _ => {
                    return vstd::pervasive::unreached();
                },
            }
        }
    }
}

} // verus!
