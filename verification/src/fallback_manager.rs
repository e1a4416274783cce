//! Fallback across backends: the selected backend is tried first, then its
//! fallbacks, each up to the retry limit, with a back-off between failed
//! attempts on the same backend; the first success ends the sequence.
//!
//! The sequence is a state machine: the caller asks for the next step,
//! performs it (an initialisation attempt or a back-off wait) and reports
//! what came of it.

use vstd::prelude::*;
use vstd::string::StringExecFns;
use std::time::Duration;
use crate::backend_selector::SelectionResult;
use crate::text::{decimal, push_decimal};
use crate::transport_type::TransportType;

verus! {

/// `Duration::clone`: `Duration` is `Copy`, and std documents `clone` of a
/// `Copy` type as a copy of the value; trusted to return an equal value.
pub assume_specification[ <Duration as Clone>::clone ](d: &Duration) -> (r: Duration)
    ensures
        r == *d,
;

/// Fallback attempt result.
#[derive(Debug, Clone)]
pub struct FallbackAttempt {
    /// Transport type attempted
    pub transport_type: TransportType,
    /// Attempt number (1-based)
    pub attempt: usize,
    /// Whether the attempt succeeded
    pub success: bool,
    /// Error if failed
    pub error: Option<String>,
    /// Duration of the attempt
    pub duration: Duration,
}

/// Fallback result.
#[derive(Debug, Clone)]
pub struct FallbackResult {
    /// Successfully selected transport
    pub transport_type: TransportType,
    /// Selection result
    pub selection: SelectionResult,
    /// All attempts made
    pub attempts: Vec<FallbackAttempt>,
    /// Total time spent on fallback
    pub total_duration: Duration,
}

/// What the caller does next.
#[derive(Debug, Clone, Copy, PartialEq, Eq, Structural)]
pub enum FallbackStep {
    /// Try to initialise this backend; this is its `attempt`-th try.
    Attempt { transport_type: TransportType, attempt: usize },
    /// Wait the back-off that follows failed attempt number `attempt`.
    Backoff { attempt: usize },
    /// This backend was initialised.
    Succeeded(TransportType),
    /// Every backend failed every attempt.
    Exhausted,
}

/// The fallback sequence over an ordered list of backends.
pub struct FallbackSequence {
    backends: Vec<TransportType>,
    max_retries: usize,
    index: usize,
    attempt: usize,
    backoff_due: bool,
    succeeded: bool,
    attempts: Vec<FallbackAttempt>,
}

/// Attempt `k` of a sequence in which every attempt fails goes to backend
/// `k / max_retries`, as its try number `k % max_retries + 1`.
pub open spec fn scheduled(a: FallbackAttempt, k: int, backends: Seq<TransportType>, max_retries: int) -> bool {
    &&& a.transport_type == backends[k / max_retries]
    &&& a.attempt == k % max_retries + 1
}

impl FallbackSequence {
    /// The backends, in the order they are tried.
    pub closed spec fn backends_view(&self) -> Seq<TransportType> {
        self.backends@
    }

    /// Tries per backend.
    pub closed spec fn spec_max_retries(&self) -> usize {
        self.max_retries
    }

    /// Attempts made so far, in order.
    pub closed spec fn attempts_view(&self) -> Seq<FallbackAttempt> {
        self.attempts@
    }

    /// The step that comes next.
    pub closed spec fn spec_step(&self) -> FallbackStep {
        if self.succeeded {
            FallbackStep::Succeeded(self.attempts@.last().transport_type)
        } else if self.backoff_due {
            FallbackStep::Backoff { attempt: (self.attempt - 1) as usize }
        } else if self.max_retries == 0 || self.index >= self.backends@.len() {
            FallbackStep::Exhausted
        } else {
            FallbackStep::Attempt { transport_type: self.backends@[self.index as int], attempt: self.attempt }
        }
    }

    /// Attempts follow the schedule; all failed but a last successful one;
    /// their number matches the position reached.
    pub closed spec fn wf(&self) -> bool {
        &&& self.max_retries > 0 ==> {
            &&& 1 <= self.attempt <= self.max_retries
            &&& self.index <= self.backends@.len()
            &&& self.attempts@.len() == self.index * self.max_retries + self.attempt - 1 + (if self.succeeded {
                1int
            } else {
                0int
            })
            &&& forall|k: int|
                0 <= k < self.attempts@.len() ==> scheduled(
                    #[trigger] self.attempts@[k],
                    k,
                    self.backends@,
                    self.max_retries as int,
                )
        }
        &&& self.max_retries == 0 ==> self.attempts@.len() == 0 && !self.succeeded && !self.backoff_due
        &&& forall|k: int| 0 <= k < self.attempts@.len() - 1 ==> !(#[trigger] self.attempts@[k]).success
        &&& self.attempts@.len() > 0 ==> (self.attempts@.last().success <==> self.succeeded)
        &&& self.succeeded ==> !self.backoff_due && self.attempts@.len() > 0
        &&& self.backoff_due ==> self.attempt >= 2 && self.index < self.backends@.len()
        &&& self.index == self.backends@.len() ==> self.attempt == 1
        &&& !self.succeeded && !self.backoff_due && self.index < self.backends@.len() && self.max_retries > 0
            ==> self.attempt <= self.max_retries
    }

    /// Start the sequence over the backends, in order, each tried up to
    /// `max_retries` times.
    pub fn new(backends: Vec<TransportType>, max_retries: usize) -> (s: Self)
        ensures
            s.wf(),
            s.backends_view() == backends@,
            s.spec_max_retries() == max_retries,
            s.attempts_view() == Seq::<FallbackAttempt>::empty(),
            s.spec_step() == (if max_retries == 0 || backends@.len() == 0 {
                FallbackStep::Exhausted
            } else {
                FallbackStep::Attempt { transport_type: backends@[0], attempt: 1 }
            }),
    {
        FallbackSequence {
            backends,
            max_retries,
            index: 0,
            attempt: 1,
            backoff_due: false,
            succeeded: false,
            attempts: Vec::new(),
        }
    }

    /// The step that comes next.
    pub fn next_step(&self) -> (step: FallbackStep)
        requires
            self.wf(),
        ensures
            step == self.spec_step(),
    {
        if self.succeeded {
            FallbackStep::Succeeded(self.attempts[self.attempts.len() - 1].transport_type)
        } else if self.backoff_due {
            FallbackStep::Backoff { attempt: self.attempt - 1 }
        } else if self.max_retries == 0 || self.index >= self.backends.len() {
            FallbackStep::Exhausted
        } else {
            FallbackStep::Attempt { transport_type: self.backends[self.index], attempt: self.attempt }
        }
    }

    /// The back-off wait was done.
    pub fn backoff_done(&mut self)
        requires
            old(self).wf(),
            old(self).spec_step() is Backoff,
        ensures
            final(self).wf(),
            final(self).backends_view() == old(self).backends_view(),
            final(self).spec_max_retries() == old(self).spec_max_retries(),
            final(self).attempts_view() == old(self).attempts_view(),
            final(self).spec_step() == (FallbackStep::Attempt {
                transport_type: old(self).backends_view()[(old(self).attempts_view().len() as int) / (old(self).spec_max_retries() as int)],
                attempt: ((old(self).attempts_view().len() as int) % (old(self).spec_max_retries() as int) + 1) as usize,
            }),
    {
        self.backoff_due = false;
        proof {
            let n = self.attempts@.len() as int;
            let m = self.max_retries as int;
            vstd::arithmetic::div_mod::lemma_fundamental_div_mod_converse(
                n,
                m,
                self.index as int,
                self.attempt - 1,
            );
            assert(n == self.index * m + (self.attempt - 1));
        }
    }

    /// Report how the attempt that `next_step` asked for went. A success
    /// ends the sequence; a failure leads to a back-off before the next try
    /// on the same backend, or, after its last try, to the next backend.
    pub fn record_attempt(&mut self, success: bool, error: Option<String>, duration: Duration)
        requires
            old(self).wf(),
            old(self).spec_step() is Attempt,
        ensures
            final(self).wf(),
            final(self).backends_view() == old(self).backends_view(),
            final(self).spec_max_retries() == old(self).spec_max_retries(),
            ({
                let (t, a) = match old(self).spec_step() {
                    FallbackStep::Attempt { transport_type, attempt } => (transport_type, attempt),
                    _ => (TransportType::Tcp, 0usize),
                };
                let rec = final(self).attempts_view().last();
                &&& final(self).attempts_view().drop_last() == old(self).attempts_view()
                &&& final(self).attempts_view().len() == old(self).attempts_view().len() + 1
                &&& rec.transport_type == t
                &&& rec.attempt == a
                &&& rec.success == success
                &&& rec.error == error
                &&& rec.duration == duration
                &&& success ==> final(self).spec_step() == FallbackStep::Succeeded(t)
                &&& !success && a < old(self).spec_max_retries() ==> final(self).spec_step() == (FallbackStep::Backoff { attempt: a })
                &&& !success && a >= old(self).spec_max_retries() ==> {
                    let next = (final(self).attempts_view().len() as int) / (old(self).spec_max_retries() as int);
                    final(self).spec_step() == (if next < old(self).backends_view().len() {
                        FallbackStep::Attempt { transport_type: old(self).backends_view()[next], attempt: 1 }
                    } else {
                        FallbackStep::Exhausted
                    })
                }
            }),
    {
        assert(self.backends@.len() == self.backends.len());
        let t = self.backends[self.index];
        let a = self.attempt;
        let ghost old_attempts = self.attempts@;
        let ghost m = self.max_retries as int;
        let ghost k = old_attempts.len() as int;
        proof {
            vstd::arithmetic::div_mod::lemma_fundamental_div_mod_converse(k, m, self.index as int, a - 1);
        }
        self.attempts.push(FallbackAttempt { transport_type: t, attempt: a, success, error, duration });
        assert(self.attempts@.drop_last() =~= old_attempts);
        if success {
            self.succeeded = true;
        } else if a < self.max_retries {
            self.backoff_due = true;
            self.attempt = a + 1;
        } else {
            self.index = self.index + 1;
            self.attempt = 1;
            proof {
                assert((self.index - 1) * m + m == self.index * m) by (nonlinear_arith);
                vstd::arithmetic::div_mod::lemma_fundamental_div_mod_converse(
                    k + 1,
                    m,
                    self.index as int,
                    0,
                );
            }
        }
        proof {
            assert forall|j: int| 0 <= j < self.attempts@.len() implies scheduled(
                #[trigger] self.attempts@[j],
                j,
                self.backends@,
                self.max_retries as int,
            ) by {
                if j < k {
                    assert(self.attempts@[j] == old_attempts[j]);
                }
            }
        }
    }

    /// A sequence ends exhausted only when every backend failed every one of
    /// its tries: no attempt succeeded, and there were as many as backends
    /// times tries.
    pub proof fn lemma_exhausted_means_all_failed(&self)
        requires
            self.wf(),
            self.spec_step() == FallbackStep::Exhausted,
        ensures
            forall|k: int| 0 <= k < self.attempts_view().len() ==> !(#[trigger] self.attempts_view()[k]).success,
            self.attempts_view().len() == self.backends_view().len() * self.spec_max_retries(),
    {
        if self.max_retries > 0 {
            assert(self.index == self.backends@.len());
        } else {
            assert(self.backends@.len() * 0 == 0);
        }
        if self.attempts@.len() > 0 {
            assert(!self.attempts@.last().success);
        }
    }

    /// A sequence ends in success on the backend of its last attempt, which
    /// succeeded after every earlier one failed.
    pub proof fn lemma_success_is_last_attempt(&self)
        requires
            self.wf(),
            self.spec_step() is Succeeded,
        ensures
            self.attempts_view().len() > 0,
            self.attempts_view().last().success,
            self.spec_step() == FallbackStep::Succeeded(self.attempts_view().last().transport_type),
            forall|k: int| 0 <= k < self.attempts_view().len() - 1 ==> !(#[trigger] self.attempts_view()[k]).success,
    {
    }

    /// Attempts made so far, in order.
    pub fn attempts(&self) -> (r: &Vec<FallbackAttempt>)
        ensures
            r@ == self.attempts_view(),
    {
        &self.attempts
    }
}

/// The message of an exhausted sequence.
pub open spec fn exhausted_message(backends: usize, attempts: usize) -> Seq<char> {
    "All transport backends failed. Tried "@ + decimal(backends as nat) + " backends with "@ + decimal(
        attempts as nat,
    ) + " total attempts"@
}

/// Message for a sequence that ran out of backends.
pub fn exhausted_error(backends: usize, attempts: usize) -> (s: String)
    ensures
        s@ == exhausted_message(backends, attempts),
{
    let mut s = String::from_str("All transport backends failed. Tried ");
    push_decimal(&mut s, backends as u64);
    s.append(" backends with ");
    push_decimal(&mut s, attempts as u64);
    s.append(" total attempts");
    s
}

} // verus!
