//! When a failed call is tried again, and after how long. The policy
//! decides; the caller waits and calls.

use crate::error::{Error, ErrorView};
use vstd::prelude::*;

verus! {

/// How often a call is tried, which failures are worth another try, and how
/// long to wait in between.
#[derive(Debug, Clone)]
pub struct RetryPolicy {
    /// The most attempts that are made, the first one included.
    pub max_attempts: u32,
    /// The wait before the second attempt, in milliseconds; it doubles
    /// with every further attempt.
    pub base_delay_ms: u64,
    /// The longest wait between two attempts, in milliseconds.
    pub max_delay_ms: u64,
    /// The statuses of API failures that are worth another try.
    pub retry_statuses: Vec<u16>,
    /// Whether a status of 500 to 599 is worth another try.
    pub retry_server_errors: bool,
    /// Whether, after a status of 429, the wait lasts until the quota is
    /// renewed, where the response said when that is.
    pub wait_for_reset: bool,
}

/// What to do after an attempt.
#[derive(Debug)]
pub enum Next<T> {
    /// Stop, with this result.
    Done(Result<T, Error>),
    /// Wait so many milliseconds, then try again.
    Wait { delay_ms: u64 },
}

/// The smaller of two numbers.
pub open spec fn least(a: nat, b: nat) -> nat {
    if a <= b {
        a
    } else {
        b
    }
}

/// The wait after `retries` earlier waits: the base, doubled once for each,
/// and never more than the longest wait.
pub open spec fn backoff_spec(base: nat, max: nat, retries: nat) -> nat
    decreases retries,
{
    if retries == 0 {
        least(base, max)
    } else {
        least(2 * backoff_spec(base, max, (retries - 1) as nat), max)
    }
}

/// The number of attempts before attempt number `attempts`.
pub open spec fn earlier(attempts: u32) -> nat {
    if attempts == 0 {
        0
    } else {
        (attempts - 1) as nat
    }
}

/// A wait with jitter: between half the wait and the whole of it, the
/// place in between picked by `jitter`.
pub open spec fn jittered(wait: nat, jitter: nat) -> nat {
    wait / 2 + jitter % (wait / 2 + 1)
}

impl RetryPolicy {
    /// Whether the policy counts the status among those worth another
    /// try.
    pub open spec fn retries_status(&self, status: u16) -> bool {
        self.retry_statuses@.contains(status) || (self.retry_server_errors && 500 <= status
            && status <= 599)
    }

    /// Whether the failure is worth another try: a transport failure
    /// always, an API failure by its status, a body that is no JSON and a
    /// failed signature never.
    pub open spec fn retryable(&self, error: ErrorView) -> bool {
        match error {
            ErrorView::Transport(_) => true,
            ErrorView::Api { status, .. } => self.retries_status(status),
            ErrorView::Decode(_) => false,
            ErrorView::Signing(_) => false,
        }
    }

    /// Whether another attempt follows the failure of attempt number
    /// `attempts`, the first attempt being number one.
    pub open spec fn tries_again(&self, attempts: u32, error: ErrorView) -> bool {
        attempts < self.max_attempts && self.retryable(error)
    }

    /// Whether the wait lasts until the quota is renewed: the policy asks
    /// for it, the status is 429, and the response told a time of renewal
    /// that lies after `now`.
    pub open spec fn waits_for_reset(&self, error: ErrorView, now: u64) -> bool {
        self.wait_for_reset && (error matches ErrorView::Api { status, rate_limit: Some(quota), .. }
            && status == 429 && quota.reset > now)
    }

    /// The wait after the failure of attempt number `attempts`, in
    /// milliseconds: until the quota is renewed where
    /// [`Self::waits_for_reset`] holds, else the doubled base with
    /// jitter. The base is doubled once for each attempt after the first.
    pub open spec fn delay_spec(
        &self,
        attempts: u32,
        error: ErrorView,
        now: u64,
        jitter: u64,
    ) -> nat {
        if self.waits_for_reset(error, now) {
            least(((error->Api_rate_limit->0.reset - now) * 1000) as nat, u64::MAX as nat)
        } else {
            jittered(
                backoff_spec(
                    self.base_delay_ms as nat,
                    self.max_delay_ms as nat,
                    earlier(attempts),
                ),
                jitter as nat,
            )
        }
    }

    /// What follows an attempt: a success and a failure not worth another
    /// try end the call, as does the last attempt allowed; any other
    /// failure is followed by a wait.
    pub open spec fn next_spec<T>(
        &self,
        attempts: u32,
        outcome: Result<T, Error>,
        now: u64,
        jitter: u64,
        next: Next<T>,
    ) -> bool {
        match outcome {
            Ok(_) => next == Next::Done(outcome),
            Err(error) => if self.tries_again(attempts, error@) {
                next == (Next::<T>::Wait {
                    delay_ms: self.delay_spec(attempts, error@, now, jitter) as u64,
                })
            } else {
                next == Next::Done(outcome)
            },
        }
    }

    /// A policy that makes at most `max_attempts` attempts, waits half a
    /// second before the second one and at most a minute before any, tries
    /// again after the status 429 and the statuses 500 to 599, and waits
    /// for the quota to be renewed where it knows when that is.
    pub fn new(max_attempts: u32) -> (policy: RetryPolicy)
        ensures
            policy.max_attempts == max_attempts,
            policy.base_delay_ms == 500,
            policy.max_delay_ms == 60_000,
            policy.retry_statuses@ == seq![429u16],
            policy.retry_server_errors,
            policy.wait_for_reset,
    {
        let mut retry_statuses: Vec<u16> = Vec::new();
        retry_statuses.push(429);
        RetryPolicy {
            max_attempts,
            base_delay_ms: 500,
            max_delay_ms: 60_000,
            retry_statuses,
            retry_server_errors: true,
            wait_for_reset: true,
        }
    }

    /// Whether the policy counts the status among those worth another
    /// try.
    pub fn is_retryable_status(&self, status: u16) -> (r: bool)
        ensures
            r == self.retries_status(status),
    {
        if self.retry_server_errors && 500 <= status && status <= 599 {
            return true;
        }
        let mut i: usize = 0;
        while i < self.retry_statuses.len()
            invariant
                i <= self.retry_statuses.len(),
                forall|k: int| 0 <= k < i ==> self.retry_statuses@[k] != status,
            decreases self.retry_statuses.len() - i,
        {
            if self.retry_statuses[i] == status {
                assert(self.retry_statuses@[i as int] == status);
                return true;
            }
            i += 1;
        }
        false
    }

    /// Whether the failure is worth another try.
    pub fn is_retryable(&self, error: &Error) -> (r: bool)
        ensures
            r == self.retryable(error@),
    {
        match error {
            Error::Transport(_) => true,
            Error::Api { status, .. } => self.is_retryable_status(*status),
            Error::Decode(_) => false,
            Error::Signing(_) => false,
        }
    }

    /// The wait after `retries` earlier waits, without jitter.
    pub fn backoff(&self, retries: u32) -> (wait: u64)
        ensures
            wait == backoff_spec(
                self.base_delay_ms as nat,
                self.max_delay_ms as nat,
                retries as nat,
            ),
    {
        let max = self.max_delay_ms;
        let ghost base = self.base_delay_ms as nat;
        let mut wait: u64 = if self.base_delay_ms < max {
            self.base_delay_ms
        } else {
            max
        };
        let mut i: u32 = 0;
        while i < retries && wait != 0 && wait < max
            invariant
                i <= retries,
                max == self.max_delay_ms,
                base == self.base_delay_ms,
                wait == backoff_spec(base, max as nat, i as nat),
                wait <= max,
            decreases retries - i,
        {
            if wait > max / 2 {
                wait = max;
            } else {
                wait = wait * 2;
            }
            i += 1;
        }
        proof {
            if i < retries {
                lemma_backoff_settles(base, max as nat, i as nat, retries as nat);
            }
        }
        wait
    }

    /// The wait after the failure of attempt number `attempts`.
    pub fn delay(&self, attempts: u32, error: &Error, now: u64, jitter: u64) -> (wait: u64)
        ensures
            wait == self.delay_spec(attempts, error@, now, jitter),
    {
        if self.wait_for_reset {
            if let Error::Api { status, rate_limit: Some(quota), .. } = error {
                if *status == 429 && quota.reset > now {
                    let seconds = quota.reset - now;
                    return match seconds.checked_mul(1000) {
                        Some(ms) => ms,
                        None => u64::MAX,
                    };
                }
            }
        }
        let wait = self.backoff(if attempts == 0 {
            0
        } else {
            attempts - 1
        });
        let half = wait / 2;
        half + jitter % (half + 1)
    }

    /// Decides what follows attempt number `attempts`, the first attempt
    /// being number one, that ended in `outcome`. `now` is the time in
    /// seconds since the epoch, `jitter` any number, the more random the
    /// better.
    pub fn on_outcome<T>(
        &self,
        attempts: u32,
        outcome: Result<T, Error>,
        now: u64,
        jitter: u64,
    ) -> (next: Next<T>)
        ensures
            self.next_spec(attempts, outcome, now, jitter, next),
    {
        match &outcome {
            Ok(_) => Next::Done(outcome),
            Err(error) => {
                if attempts < self.max_attempts && self.is_retryable(error) {
                    Next::Wait { delay_ms: self.delay(attempts, error, now, jitter) }
                } else {
                    Next::Done(outcome)
                }
            },
        }
    }
}

/// Once the wait is zero or has reached the longest wait, it stays there.
pub proof fn lemma_backoff_settles(base: nat, max: nat, from: nat, to: nat)
    requires
        from <= to,
        backoff_spec(base, max, from) == 0 || backoff_spec(base, max, from) >= max,
    ensures
        backoff_spec(base, max, to) == backoff_spec(base, max, from),
    decreases to - from,
{
    lemma_backoff_bound(base, max, from);
    if from < to {
        lemma_backoff_settles(base, max, from, (to - 1) as nat);
    }
}

/// No wait is longer than the longest wait.
pub proof fn lemma_backoff_bound(base: nat, max: nat, retries: nat)
    ensures
        backoff_spec(base, max, retries) <= max,
    decreases retries,
{
    if retries > 0 {
        lemma_backoff_bound(base, max, (retries - 1) as nat);
    }
}

/// A wait with jitter lies between half the wait and the whole of it.
pub proof fn lemma_jitter_bounds(wait: nat, jitter: nat)
    ensures
        wait / 2 <= jittered(wait, jitter) <= wait,
{
}

/// What a failed attempt stands for in a run: its failure; a success
/// stands for nothing.
pub type Attempt = Option<ErrorView>;

impl RetryPolicy {
    /// Whether the run goes on after attempt number `number`.
    pub open spec fn goes_on(&self, number: nat, attempt: Attempt) -> bool {
        match attempt {
            Some(error) => number < self.max_attempts && self.retryable(error),
            None => false,
        }
    }

    /// The number of the attempt at which a run ends, counted from
    /// `from`: the first attempt after which the run does not go on. The
    /// run has at least `from` attempts; an attempt past the end of
    /// `attempts` never comes.
    pub open spec fn ends_at(&self, attempts: Seq<Attempt>, from: nat) -> nat
        decreases attempts.len() - from,
    {
        if from >= attempts.len() {
            from
        } else if self.goes_on(from + 1, attempts[from as int]) {
            self.ends_at(attempts, from + 1)
        } else {
            from + 1
        }
    }

    /// A run over given attempts ends at the first attempt that succeeds,
    /// fails in a way not worth another try, or is the last one allowed.
    /// Every attempt before it failed in a way worth another try; so
    /// there are as many waits as attempts before it, and never more
    /// attempts than the policy allows.
    pub proof fn lemma_run(&self, attempts: Seq<Attempt>, from: nat)
        requires
            from <= attempts.len(),
        ensures
            from <= self.ends_at(attempts, from) <= attempts.len(),
            forall|k: int|
                from <= k < self.ends_at(attempts, from) - 1 ==> (#[trigger] attempts[k]) is Some
                    && self.retryable(attempts[k]->0) && k + 1 < self.max_attempts,
            from < attempts.len() && self.ends_at(attempts, from) < attempts.len()
                ==> !self.goes_on(
                self.ends_at(attempts, from),
                attempts[self.ends_at(attempts, from) - 1],
            ),
            from < self.max_attempts ==> self.ends_at(attempts, from) <= self.max_attempts,
        decreases attempts.len() - from,
    {
        if from < attempts.len() && self.goes_on(from + 1, attempts[from as int]) {
            self.lemma_run(attempts, from + 1);
        }
    }

    /// A body that is no JSON ends the run: no attempt follows it.
    pub proof fn lemma_decode_ends_run(&self, attempts: Seq<Attempt>, from: nat, k: int)
        requires
            from <= k < attempts.len(),
            attempts[k] matches Some(ErrorView::Decode(_)),
        ensures
            self.ends_at(attempts, from) <= k + 1,
        decreases attempts.len() - from,
    {
        if from < k && self.goes_on(from + 1, attempts[from as int]) {
            self.lemma_decode_ends_run(attempts, from + 1, k);
        }
    }
}

} // verus!
