//! The rule by which a failed ingestion is tried again. Reading the source
//! is the caller's work; what to do after each attempt is decided here.

use vstd::prelude::*;

verus! {

/// The seconds to wait before another attempt.
pub const RETRY_WAIT_SECONDS: u64 = 1;

/// How many attempts are made at most under a limit: as many as the limit
/// says, and one where it says none.
pub open spec fn attempts_allowed(max_attempts: nat) -> nat {
    if max_attempts == 0 {
        1
    } else {
        max_attempts
    }
}

/// Whether the attempt after `failures` failed ones is the last under the
/// limit.
pub open spec fn is_last_attempt(failures: nat, max_attempts: nat) -> bool {
    failures + 1 >= max_attempts
}

/// The attempts that have failed so far, under a limit.
#[derive(Clone, Copy, Debug)]
pub struct RetryState {
    failures: usize,
    max_attempts: usize,
}

/// How an attempt ended.
#[derive(Clone, Copy, Debug, PartialEq, Eq, Structural)]
pub enum Attempt {
    /// The source was read.
    Succeeded,
    /// The source could not be read.
    Failed,
}

/// What to do after an attempt.
#[derive(Clone, Copy, Debug)]
pub enum RetryStep {
    /// Hand out what was read.
    Finish,
    /// Wait this many seconds, then try again from this state.
    TryAgain { state: RetryState, wait_seconds: u64 },
    /// Report the last failure, after this many attempts.
    GiveUp { attempts: usize },
}

impl RetryState {
    #[verifier::type_invariant]
    spec fn inv(self) -> bool {
        self.failures == 0 || self.failures < self.max_attempts
    }

    /// The number of attempts that have failed.
    pub closed spec fn failed(self) -> nat {
        self.failures as nat
    }

    /// The limit on the attempts.
    pub closed spec fn limit(self) -> nat {
        self.max_attempts as nat
    }

    /// The state before the first attempt.
    pub fn new(max_attempts: usize) -> (s: RetryState)
        ensures
            s.failed() == 0,
            s.limit() == max_attempts,
    {
        RetryState { failures: 0, max_attempts }
    }

    /// The number of attempts that have failed.
    pub fn failures(&self) -> (n: usize)
        ensures
            n == self.failed(),
            n < attempts_allowed(self.limit()),
    {
        proof {
            use_type_invariant(self);
        }
        self.failures
    }

    /// The limit on the attempts.
    pub fn max_attempts(&self) -> (n: usize)
        ensures
            n == self.limit(),
    {
        self.max_attempts
    }

    /// Decides what follows an attempt. After a success the work is done.
    /// After a failure that was the last attempt under the limit, the work
    /// is given up; after another failure, the next attempt follows a wait
    /// of one second.
    pub fn after(self, attempt: Attempt) -> (step: RetryStep)
        ensures
            match step {
                RetryStep::Finish => attempt == Attempt::Succeeded,
                RetryStep::TryAgain { state, wait_seconds } => {
                    &&& attempt == Attempt::Failed
                    &&& !is_last_attempt(self.failed(), self.limit())
                    &&& state.failed() == self.failed() + 1
                    &&& state.limit() == self.limit()
                    &&& wait_seconds == RETRY_WAIT_SECONDS
                },
                RetryStep::GiveUp { attempts } => {
                    &&& attempt == Attempt::Failed
                    &&& is_last_attempt(self.failed(), self.limit())
                    &&& attempts == self.failed() + 1
                    &&& attempts == attempts_allowed(self.limit())
                },
            },
    {
        proof {
            use_type_invariant(&self);
        }
        match attempt {
            Attempt::Succeeded => RetryStep::Finish,
            Attempt::Failed => {
                let attempts = self.failures + 1;
                if attempts >= self.max_attempts {
                    RetryStep::GiveUp { attempts }
                } else {
                    RetryStep::TryAgain {
                        state: RetryState { failures: attempts, max_attempts: self.max_attempts },
                        wait_seconds: RETRY_WAIT_SECONDS,
                    }
                }
            },
        }
    }
}

/// Under any limit, the attempt that is the last is the one whose number is
/// the number of attempts allowed: no earlier failure ends the work, and
/// that one does.
pub proof fn last_attempt_is_the_allowed_one(failures: nat, max_attempts: nat)
    requires
        failures < attempts_allowed(max_attempts),
    ensures
        is_last_attempt(failures, max_attempts) <==> failures + 1 == attempts_allowed(
            max_attempts,
        ),
{
}

} // verus!
