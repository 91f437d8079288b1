//! Token bucket that paces the reading of a client, in bits per second.
//!
//! The bucket fills at the configured rate and holds at most one second of
//! budget. It starts empty, so that a session cannot begin with a burst. Time
//! is in milliseconds, and tokens are counted in thousandths of a bit so that a
//! refill is exact.

use crate::clock::Clock;
use vstd::prelude::*;

verus! {

/// Longest time that one refill accounts for, in milliseconds. After a longer
/// pause the time gone by gives nothing.
pub const LONGEST_REFILL_MS: u64 = 1000;

/// Thousandths of a bit in a byte.
pub const MILLIBITS_PER_BYTE: u128 = 8000;

/// Model of the bucket.
pub struct ThrottleView {
    /// Time of the last refill.
    pub previous: u64,
    /// Bits per second.
    pub refresh_rate: u64,
    /// Thousandths of a bit in the bucket.
    pub current_tokens: int,
}

impl ThrottleView {
    /// A full bucket: one second at the configured rate.
    pub open spec fn max_tokens(self) -> int {
        self.refresh_rate * 1000
    }

    pub open spec fn wf(self) -> bool {
        0 <= self.current_tokens <= self.max_tokens()
    }

    /// The time that a refill at `now` accounts for: the time since the last
    /// refill, or nothing when more than a second went by or time went back.
    pub open spec fn credit_ms(self, now: u64) -> int {
        if now < self.previous || now - self.previous > 1000 {
            0
        } else {
            now - self.previous
        }
    }

    /// The bucket after a refill at `now`.
    pub open spec fn refresh(self, now: u64) -> ThrottleView {
        let filled = self.current_tokens + self.refresh_rate * self.credit_ms(now);
        ThrottleView {
            previous: now,
            current_tokens: if filled > self.max_tokens() {
                self.max_tokens()
            } else {
                filled
            },
            ..self
        }
    }

    /// What `bytes` bytes cost.
    pub open spec fn cost(bytes: usize) -> int {
        bytes * 8000
    }

    /// True when `bytes` bytes may pass at `now`.
    pub open spec fn admits(self, now: u64, bytes: usize) -> bool {
        self.refresh(now).current_tokens >= Self::cost(bytes)
    }

    /// The bucket after `bytes` bytes asked to pass at `now`: refilled, and
    /// less their cost when they may pass.
    pub open spec fn acquire(self, now: u64, bytes: usize) -> ThrottleView {
        if self.admits(now, bytes) {
            ThrottleView {
                current_tokens: self.refresh(now).current_tokens - Self::cost(bytes),
                ..self.refresh(now)
            }
        } else {
            self.refresh(now)
        }
    }
}

/// The bucket.
pub struct Throttle {
    pub previous: u64,
    pub refresh_rate: u64,
    pub current_tokens: u128,
    pub clock: Clock,
}

impl View for Throttle {
    type V = ThrottleView;

    open spec fn view(&self) -> ThrottleView {
        ThrottleView {
            previous: self.previous,
            refresh_rate: self.refresh_rate,
            current_tokens: self.current_tokens as int,
        }
    }
}

impl Throttle {
    pub open spec fn wf(&self) -> bool {
        self@.wf()
    }

    /// An empty bucket that fills at `rate` bits per second from `now` on.
    pub fn new_at(rate: u64, now: u64) -> (r: Throttle)
        ensures
            r.wf(),
            r@ == (ThrottleView { previous: now, refresh_rate: rate, current_tokens: 0 }),
    {
        Throttle { previous: now, refresh_rate: rate, current_tokens: 0, clock: Clock::new() }
    }

    /// An empty bucket that fills at `rate` bits per second from now on, timed
    /// on a clock of its own.
    pub fn new(rate: u64) -> (r: Throttle)
        ensures
            r.wf(),
            r@.refresh_rate == rate,
            r@.current_tokens == 0,
    {
        let clock = Clock::new();
        let now: u64 = clock.now_ms();
        Throttle { previous: now, refresh_rate: rate, current_tokens: 0, clock }
    }

    /// Fills the bucket for the time gone by since the last refill.
    pub fn refresh_at(&mut self, now: u64)
        requires
            old(self).wf(),
        ensures
            final(self).wf(),
            final(self)@ == old(self)@.refresh(now),
    {
        let mut diff: u64 = now.saturating_sub(self.previous);
        if diff > LONGEST_REFILL_MS {
            diff = 0;
        }
        self.previous = now;
        let rate: u128 = self.refresh_rate as u128;
        let max_tokens: u128 = rate * 1000;
        assert(rate * diff as u128 <= rate * 1000) by (nonlinear_arith)
            requires
                diff <= 1000,
        ;
        let filled: u128 = self.current_tokens + rate * diff as u128;
        self.current_tokens = if filled > max_tokens {
            max_tokens
        } else {
            filled
        };
    }

    /// Asks for `bytes` bytes to pass at `now`. When the refilled bucket holds
    /// their cost, takes it and says yes; else says no, and the caller asks
    /// again later.
    pub fn try_acquire_at(&mut self, now: u64, bytes: usize) -> (r: bool)
        requires
            old(self).wf(),
        ensures
            final(self).wf(),
            r == old(self)@.admits(now, bytes),
            final(self)@ == old(self)@.acquire(now, bytes),
    {
        self.refresh_at(now);
        let cost: u128 = bytes as u128 * MILLIBITS_PER_BYTE;
        if self.current_tokens >= cost {
            self.current_tokens = self.current_tokens - cost;
            true
        } else {
            false
        }
    }

    /// Asks for `bytes` bytes to pass now: [`Throttle::try_acquire_at`] at the
    /// reading of the bucket's clock. On a refusal the caller waits and asks
    /// again.
    pub fn try_acquire(&mut self, bytes: usize) -> (r: bool)
        requires
            old(self).wf(),
        ensures
            final(self).wf(),
            exists|now: u64|
                final(self)@ == #[trigger] old(self)@.acquire(now, bytes)
                    && r == old(self)@.admits(now, bytes),
    {
        let now: u64 = self.clock.now_ms();
        self.try_acquire_at(now, bytes)
    }

    /// Tells whether `bytes` bytes can ever pass at once: their cost is within
    /// a full bucket.
    pub fn can_admit(&self, bytes: usize) -> (r: bool)
        ensures
            r == (ThrottleView::cost(bytes) <= self@.max_tokens()),
    {
        bytes as u128 * MILLIBITS_PER_BYTE <= self.refresh_rate as u128 * 1000
    }
}

/// What passes within one refill is bounded by what the bucket held and what
/// the rate gives for the time gone by; the bucket never holds more than one
/// second of budget.
pub proof fn lemma_rate_bound(bucket: ThrottleView, now: u64, bytes: usize)
    requires
        bucket.wf(),
        bucket.admits(now, bytes),
    ensures
        ThrottleView::cost(bytes) <= bucket.current_tokens + bucket.refresh_rate * bucket.credit_ms(
            now,
        ),
        ThrottleView::cost(bytes) <= bucket.max_tokens(),
        bucket.acquire(now, bytes).wf(),
{
    assert(bucket.refresh_rate * bucket.credit_ms(now) >= 0) by (nonlinear_arith)
        requires
            bucket.refresh_rate >= 0,
            bucket.credit_ms(now) >= 0,
    ;
}

/// A bucket refilled a second after its last refill is full, and bytes whose
/// cost is within a full bucket then pass.
pub proof fn lemma_full_after_a_second(bucket: ThrottleView, now: u64, bytes: usize)
    requires
        bucket.wf(),
        now == bucket.previous + 1000,
        ThrottleView::cost(bytes) <= bucket.max_tokens(),
    ensures
        bucket.refresh(now).current_tokens == bucket.max_tokens(),
        bucket.admits(now, bytes),
{
}

} // verus!
