//! Bounded retry of one fetch.
//!
//! A fetch that times out is tried again, up to a fixed number of extra
//! attempts; any other failure ends it at once.  The policy only decides:
//! the caller makes each attempt and reports how it went.

use crate::config::DEFAULT_MAX_RETRIES;
use crate::error::FetchError;
use vstd::prelude::*;

verus! {

/// How many extra attempts a timed-out fetch is granted.
#[derive(Clone, Copy, Debug, PartialEq, Eq, Structural)]
pub struct RetryPolicy {
    pub max_retries: u32,
}

/// Where one fetch stands: how many retries it has used up.
#[derive(Clone, Copy, Debug, PartialEq, Eq, Structural)]
pub struct RetryState {
    pub retries: u32,
}

/// What to do after an attempt.
#[derive(Debug, PartialEq, Eq)]
pub enum Verdict<T> {
    /// The attempt succeeded; the fetch is over.
    Done(T),
    /// The attempt timed out and another one is granted.  The state counts
    /// the timeouts so far and is handed back with the next outcome.
    Retry(RetryState),
    /// The fetch is over without a value.
    Failed(FetchError),
}

/// The outcome of a whole fetch as far as a list of attempt outcomes
/// determines it.
pub ghost struct Run<T> {
    /// `None` while the last listed attempt still asked for a retry.
    pub result: Option<Result<T, FetchError>>,
    /// How many of the listed attempts were made.
    pub invocations: nat,
}

/// `count` timeouts in a row.
pub open spec fn timeouts<T>(count: nat) -> Seq<Result<T, FetchError>> {
    Seq::new(count, |i: int| Err(FetchError::Timeout))
}

impl RetryPolicy {
    /// The decision after one attempt.
    pub open spec fn decide<T>(self, state: RetryState, outcome: Result<T, FetchError>) -> Verdict<
        T,
    > {
        match outcome {
            Ok(value) => Verdict::Done(value),
            Err(e) => if e is Timeout && state.retries < self.max_retries {
                Verdict::Retry(RetryState { retries: (state.retries + 1) as u32 })
            } else {
                Verdict::Failed(e)
            },
        }
    }

    /// The fetch that results when the attempts turn out as `outcomes`
    /// lists them, one after the other, starting from `state`.
    pub open spec fn run<T>(self, state: RetryState, outcomes: Seq<Result<T, FetchError>>) -> Run<T>
        decreases outcomes.len(),
    {
        if outcomes.len() == 0 {
            Run { result: None, invocations: 0 }
        } else {
            match self.decide(state, outcomes[0]) {
                Verdict::Done(value) => Run { result: Some(Ok(value)), invocations: 1 },
                Verdict::Failed(e) => Run { result: Some(Err(e)), invocations: 1 },
                Verdict::Retry(next) => {
                    let rest = self.run(next, outcomes.drop_first());
                    Run { result: rest.result, invocations: rest.invocations + 1 }
                },
            }
        }
    }

    /// A policy that grants `max_retries` extra attempts.
    pub fn new(max_retries: u32) -> (r: Self)
        ensures
            r.max_retries == max_retries,
    {
        RetryPolicy { max_retries }
    }

    /// The state of a fetch before its first attempt.
    pub fn start(&self) -> (r: RetryState)
        ensures
            r.retries == 0,
    {
        RetryState { retries: 0 }
    }

    /// Decides what follows an attempt that ended in `outcome`.
    ///
    /// A value ends the fetch.  A timeout is retried while fewer than
    /// `max_retries` retries have been used, and is the fetch's failure
    /// after that.  Every other failure ends the fetch at once.
    pub fn step<T>(&self, state: RetryState, outcome: Result<T, FetchError>) -> (v: Verdict<T>)
        ensures
            v == self.decide(state, outcome),
    {
        match outcome {
            Ok(value) => Verdict::Done(value),
            Err(e) => {
                if e.is_transient() && state.retries < self.max_retries {
                    Verdict::Retry(RetryState { retries: state.retries + 1 })
                } else {
                    Verdict::Failed(e)
                }
            },
        }
    }

    /// A fetch whose attempts time out `t` times and then succeed ends with
    /// the value after `t + 1` attempts if the retries left cover `t`, and
    /// otherwise fails with `Timeout` after one attempt more than there were
    /// retries left.  Attempts listed after the success play no part.
    pub proof fn lemma_timeouts_then_success<T>(
        self,
        state: RetryState,
        t: nat,
        value: T,
        later: Seq<Result<T, FetchError>>,
    )
        requires
            state.retries <= self.max_retries,
        ensures
            ({
                let left = self.max_retries - state.retries;
                let run = self.run(state, timeouts::<T>(t).push(Ok(value)) + later);
                &&& t <= left ==> run == Run { result: Some(Ok(value)), invocations: t + 1 }
                &&& t > left ==> run == Run::<T> {
                    result: Some(Err(FetchError::Timeout)),
                    invocations: (left + 1) as nat,
                }
            }),
        decreases t,
    {
        let outcomes = timeouts::<T>(t).push(Ok(value)) + later;
        if t > 0 && state.retries < self.max_retries {
            let next = RetryState { retries: (state.retries + 1) as u32 };
            assert(outcomes.drop_first() =~= timeouts::<T>((t - 1) as nat).push(Ok(value)) + later);
            self.lemma_timeouts_then_success(next, (t - 1) as nat, value, later);
        }
    }

    /// Under a policy of five retries, a transform that times out `t` times
    /// and then succeeds is invoked `t + 1` times and yields its value when
    /// `t <= 5`; it is invoked six times and the fetch fails with `Timeout`
    /// when `t >= 6`.
    pub proof fn lemma_five_retries<T>(t: nat, value: T)
        ensures
            ({
                let policy = RetryPolicy { max_retries: DEFAULT_MAX_RETRIES };
                let run = policy.run(RetryState { retries: 0 }, timeouts::<T>(t).push(Ok(value)));
                &&& t <= 5 ==> run == Run { result: Some(Ok(value)), invocations: t + 1 }
                &&& t >= 6 ==> run == Run::<T> {
                    result: Some(Err(FetchError::Timeout)),
                    invocations: 6,
                }
            }),
    {
        let policy = RetryPolicy { max_retries: DEFAULT_MAX_RETRIES };
        let script = timeouts::<T>(t).push(Ok(value));
        assert(script + Seq::<Result<T, FetchError>>::empty() =~= script);
        policy.lemma_timeouts_then_success(RetryState { retries: 0 }, t, value, Seq::empty());
    }

    /// However the attempts turn out, a fetch makes at most one attempt more
    /// than it has retries left.
    pub proof fn lemma_attempts_bounded<T>(
        self,
        state: RetryState,
        outcomes: Seq<Result<T, FetchError>>,
    )
        requires
            state.retries <= self.max_retries,
        ensures
            self.run(state, outcomes).invocations <= self.max_retries - state.retries + 1,
            self.run(state, outcomes).invocations <= outcomes.len(),
        decreases outcomes.len(),
    {
        if outcomes.len() > 0 {
            if let Verdict::Retry(next) = self.decide(state, outcomes[0]) {
                self.lemma_attempts_bounded(next, outcomes.drop_first());
            }
        }
    }

    /// Only a timeout is ever retried: a fetch whose first attempt fails in
    /// another way ends there with that failure.
    pub proof fn lemma_other_failures_end_the_fetch<T>(
        self,
        state: RetryState,
        e: FetchError,
        later: Seq<Result<T, FetchError>>,
    )
        requires
            !(e is Timeout),
        ensures
            self.run(state, seq![Err::<T, FetchError>(e)] + later) == (Run::<T> {
                result: Some(Err(e)),
                invocations: 1,
            }),
    {
    }
}

impl Default for RetryPolicy {
    fn default() -> (r: Self)
        ensures
            r.max_retries == DEFAULT_MAX_RETRIES,
    {
        RetryPolicy { max_retries: DEFAULT_MAX_RETRIES }
    }
}

} // verus!
