//! The rate gate: every request to the catalogue passes it first.
//!
//! The rate gate is a token bucket. A caller polls it before a request; told
//! to wait, it sleeps for the pause given and polls again. After a fixed
//! number of waits the caller is let through without a token, so that a
//! bucket that never grants cannot hold a run up for ever.

use vstd::prelude::*;

verus! {

/// How many tokens the bucket gains per interval, and holds at most.
pub const TOKENS_PER_INTERVAL: u64 = 30;

/// Length of the refill interval in seconds.
pub const INTERVAL_SECS: u64 = 5;

/// How often one request waits before it goes ahead without a token.
pub const MAX_WAITS: u32 = 10;

/// Longest refill interval that a gate can be made with, in seconds.
pub const MAX_INTERVAL_SECS: u64 = 86_400;

/// Largest refill, and largest bucket, that a gate can be made with.
pub const MAX_TOKENS: u64 = 1_000_000;

/// `ratelimit::Ratelimiter`, declared so that a rate gate can hold one.
/// Nothing inside it is visible here.
#[verifier::external_type_specification]
#[verifier::external_body]
pub struct ExRatelimiter(ratelimit::Ratelimiter);

/// Why a gate could not be made.
#[derive(Clone, Copy, Debug, PartialEq, Eq, Structural)]
pub enum GateError {
    /// The bucket would hold fewer tokens than one refill brings.
    MaxTokensTooLow,
    /// The limits are out of range: an interval of less than a second or
    /// of more than `MAX_INTERVAL_SECS`, or a refill or a bucket of more than
    /// `MAX_TOKENS`.
    Refused,
}

/// A length of time: whole seconds and the nanoseconds beyond them.
#[derive(Clone, Copy, Debug, PartialEq, Eq, Structural)]
pub struct Pause {
    pub secs: u64,
    pub nanos: u32,
}

/// What the bucket says to one poll.
#[derive(Clone, Copy, Debug, PartialEq, Eq, Structural)]
pub enum Admission {
    /// A token was taken.
    Granted,
    /// No token is to be had before the pause has passed.
    Wait(Pause),
}

/// How a request got past the rate gate.
#[derive(Clone, Copy, Debug, PartialEq, Eq, Structural)]
pub enum Passage {
    /// With a token.
    Granted,
    /// Without one, after `MAX_WAITS` waits.
    GaveUp,
}

/// How far one request has come at the rate gate.
#[derive(Clone, Copy, Debug, PartialEq, Eq, Structural)]
pub struct Attempt {
    /// How often the request has been told to wait.
    pub waits: u32,
}

/// What the caller does next.
#[derive(Clone, Copy, Debug, PartialEq, Eq, Structural)]
pub enum GateStep {
    /// Send the request.
    Proceed(Passage),
    /// Sleep for `pause`, then poll again with `next`.
    Sleep { pause: Pause, next: Attempt },
}

/// What follows from the bucket's answer for a request that has waited
/// fewer than `MAX_WAITS` times.
pub open spec fn step_after(attempt: Attempt, admission: Admission) -> GateStep {
    match admission {
        Admission::Granted => GateStep::Proceed(Passage::Granted),
        Admission::Wait(pause) => GateStep::Sleep {
            pause,
            next: Attempt { waits: (attempt.waits + 1) as u32 },
        },
    }
}

/// The limits that a limiter was built with: the refill, the refill
/// interval in seconds, and the size of the bucket.
pub uninterp spec fn built_with(limiter: ratelimit::Ratelimiter) -> (u64, u64, u64);

/// The limits under which polling a limiter is safe: the refill arithmetic
/// of the limiter divides by the interval and multiplies the refill by the
/// number of intervals that have passed.
pub open spec fn limits_in_range(limits: (u64, u64, u64)) -> bool {
    &&& limits.0 <= MAX_TOKENS
    &&& 1 <= limits.1 <= MAX_INTERVAL_SECS
    &&& limits.2 <= MAX_TOKENS
}

/// Calls `ratelimit::Ratelimiter::builder` with `amount` and an interval of
/// `interval_secs` seconds, `max_tokens` on the builder, and `build`.
///
/// Trusted: with limits in range, `build` refuses exactly those where
/// `max_tokens` is less than `amount`, and then with its error
/// `MaxTokensTooLow`; a limiter that it returns has the limits it was asked
/// for. The interval is kept short so that the first refill instant, the
/// clock's reading plus the interval, stays within the clock's range.
#[verifier::external_body]
fn build_limiter(amount: u64, interval_secs: u64, max_tokens: u64) -> (r: Result<
    ratelimit::Ratelimiter,
    GateError,
>)
    requires
        limits_in_range((amount, interval_secs, max_tokens)),
    ensures
        r is Ok <==> amount <= max_tokens,
        r matches Ok(limiter) ==> built_with(limiter) == (amount, interval_secs, max_tokens),
        r matches Err(error) ==> error == GateError::MaxTokensTooLow,
{
    let interval = std::time::Duration::from_secs(interval_secs);
    match ratelimit::Ratelimiter::builder(amount, interval).max_tokens(max_tokens).build() {
        Ok(limiter) => Ok(limiter),
        Err(ratelimit::Error::MaxTokensTooLow) => Err(GateError::MaxTokensTooLow),
        Err(_) => Err(GateError::Refused),
    }
}

/// Calls `ratelimit::Ratelimiter::try_wait`.
///
/// Trusted: only that a pause, where one is returned, is a
/// `core::time::Duration` taken apart by `as_secs` and `subsec_nanos`, whose
/// nanoseconds are below one second. Whether a token is granted depends on
/// the clock and on earlier polls: nothing is claimed of it. A limiter with
/// an interval of zero makes `try_wait` divide by zero, and one with a huge
/// refill makes its multiplication overflow: both are left out.
#[verifier::external_body]
fn try_acquire(limiter: &ratelimit::Ratelimiter) -> (r: Admission)
    requires
        limits_in_range(built_with(*limiter)),
    ensures
        r matches Admission::Wait(pause) ==> pause.nanos < 1_000_000_000,
{
    match limiter.try_wait() {
        Ok(()) => Admission::Granted,
        Err(wait) => Admission::Wait(Pause { secs: wait.as_secs(), nanos: wait.subsec_nanos() }),
    }
}

/// What follows from the bucket's answer to a poll.
pub fn decide(attempt: Attempt, admission: Admission) -> (step: GateStep)
    requires
        attempt.waits < MAX_WAITS,
    ensures
        step == step_after(attempt, admission),
{
    match admission {
        Admission::Granted => GateStep::Proceed(Passage::Granted),
        Admission::Wait(pause) => GateStep::Sleep {
            pause,
            next: Attempt { waits: attempt.waits + 1 },
        },
    }
}

impl Attempt {
    /// The attempt of a request that has not polled yet.
    pub fn first() -> (attempt: Attempt)
        ensures
            attempt.waits == 0,
    {
        Attempt { waits: 0 }
    }
}

/// The rate gate.
pub struct RateGate {
    limiter: ratelimit::Ratelimiter,
}

impl RateGate {
    #[verifier::type_invariant]
    spec fn limiter_in_range(self) -> bool {
        limits_in_range(built_with(self.limiter))
    }

    /// The limits that the rate gate was made with: the refill, the refill
    /// interval in seconds, and the size of the bucket.
    pub closed spec fn limits(&self) -> (u64, u64, u64) {
        built_with(self.limiter)
    }

    /// A gate with the usual limits: `TOKENS_PER_INTERVAL` tokens every
    /// `INTERVAL_SECS` seconds, and as many at most in the bucket.
    pub fn new() -> (r: Result<RateGate, GateError>)
        ensures
            r matches Ok(gate) && gate.limits() == (
                TOKENS_PER_INTERVAL,
                INTERVAL_SECS,
                TOKENS_PER_INTERVAL,
            ),
    {
        RateGate::with_limits(TOKENS_PER_INTERVAL, INTERVAL_SECS, TOKENS_PER_INTERVAL)
    }

    /// A gate whose bucket gains `amount` tokens every `interval_secs`
    /// seconds and holds `max_tokens` at most. Limits out of range are
    /// refused, and so is a bucket smaller than one refill.
    pub fn with_limits(amount: u64, interval_secs: u64, max_tokens: u64) -> (r: Result<
        RateGate,
        GateError,
    >)
        ensures
            match r {
                Ok(gate) => {
                    &&& limits_in_range((amount, interval_secs, max_tokens))
                    &&& amount <= max_tokens
                    &&& gate.limits() == (amount, interval_secs, max_tokens)
                },
                Err(error) => if limits_in_range((amount, interval_secs, max_tokens)) {
                    max_tokens < amount && error == GateError::MaxTokensTooLow
                } else {
                    error == GateError::Refused
                },
            },
    {
        if amount > MAX_TOKENS || interval_secs < 1 || interval_secs > MAX_INTERVAL_SECS
            || max_tokens > MAX_TOKENS {
            return Err(GateError::Refused);
        }
        match build_limiter(amount, interval_secs, max_tokens) {
            Ok(limiter) => Ok(RateGate { limiter }),
            Err(error) => Err(error),
        }
    }

    /// Polls the rate gate for a request. A request that has waited `MAX_WAITS`
    /// times goes ahead without the bucket being asked; any other takes a
    /// token or is told to wait once more.
    pub fn poll(&self, attempt: Attempt) -> (step: GateStep)
        ensures
            attempt.waits >= MAX_WAITS ==> step == GateStep::Proceed(Passage::GaveUp),
            attempt.waits < MAX_WAITS ==> step == GateStep::Proceed(Passage::Granted) || (
            step matches GateStep::Sleep { pause, next } && next.waits == attempt.waits + 1
                && pause.nanos < 1_000_000_000),
    {
        proof {
            use_type_invariant(self);
        }
        if attempt.waits >= MAX_WAITS {
            GateStep::Proceed(Passage::GaveUp)
        } else {
            let admission = try_acquire(&self.limiter);
            decide(attempt, admission)
        }
    }
}

/// A request sleeps at the rate gate at most `MAX_WAITS` times: each wait counts,
/// and the count of a request that is told to wait was below `MAX_WAITS`.
pub proof fn lemma_gate_waits_bounded(attempt: Attempt, admission: Admission)
    requires
        attempt.waits < MAX_WAITS,
    ensures
        step_after(attempt, admission) matches GateStep::Sleep { pause, next } ==> next.waits
            == attempt.waits + 1 && next.waits <= MAX_WAITS,
{
}

} // verus!
