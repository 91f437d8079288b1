//! Watch on the sender's heartbeat: tells when it has been silent for too long,
//! at most once per second.

use crate::clock::Clock;
use vstd::prelude::*;

verus! {

/// Least time between two warnings, in milliseconds.
pub const WARNING_PERIOD_MS: u64 = 1000;

/// Model of the watch: when the sender was last heard, how long it may stay
/// silent, and when the last warning was given. Times are in milliseconds.
pub struct HeartBeatView {
    pub last_time: u64,
    pub interval: u64,
    pub last_log: u64,
}

/// Time gone by between `since` and `now`, zero when `now` is the earlier one.
pub open spec fn elapsed(since: u64, now: u64) -> int {
    if now >= since {
        now - since
    } else {
        0
    }
}

impl HeartBeatView {
    /// True when a check at `now` gives a warning: the sender has been silent
    /// for more than the interval, and the last warning is more than a second
    /// old.
    pub open spec fn warns(self, now: u64) -> bool {
        elapsed(self.last_time, now) > self.interval && elapsed(self.last_log, now) > 1000
    }

    /// The warning that a check at `now` gives: the length of the silence.
    pub open spec fn warning(self, now: u64) -> Option<u64> {
        if self.warns(now) {
            Some(elapsed(self.last_time, now) as u64)
        } else {
            None
        }
    }

    /// The watch after the sender was heard at `now`.
    pub open spec fn update(self, now: u64) -> HeartBeatView {
        HeartBeatView { last_time: now, ..self }
    }

    /// The watch after a check at `now`.
    pub open spec fn check(self, now: u64) -> HeartBeatView {
        if self.warns(now) {
            HeartBeatView { last_log: now, ..self }
        } else {
            self
        }
    }
}

/// Watch on the sender's heartbeat.
pub struct HeartBeat {
    pub last_time: u64,
    pub interval: u64,
    pub last_log: u64,
    pub clock: Clock,
}

impl View for HeartBeat {
    type V = HeartBeatView;

    open spec fn view(&self) -> HeartBeatView {
        HeartBeatView { last_time: self.last_time, interval: self.interval, last_log: self.last_log }
    }
}

impl HeartBeat {
    /// A watch started at `now` that lets the sender stay silent for `interval`
    /// milliseconds.
    pub fn new_at(interval: u64, now: u64) -> (r: HeartBeat)
        ensures
            r@ == (HeartBeatView { last_time: now, interval, last_log: now }),
    {
        HeartBeat { last_time: now, interval, last_log: now, clock: Clock::new() }
    }

    /// A watch started now, on a clock of its own.
    pub fn new(interval: u64) -> (r: HeartBeat)
        ensures
            r@.interval == interval,
            r@.last_time == r@.last_log,
    {
        let clock = Clock::new();
        let now: u64 = clock.now_ms();
        HeartBeat { last_time: now, interval, last_log: now, clock }
    }

    /// Notes that the sender was heard at `now`.
    pub fn update_at(&mut self, now: u64)
        ensures
            final(self)@ == old(self)@.update(now),
    {
        self.last_time = now;
    }

    /// Notes that the sender was heard now.
    pub fn update(&mut self)
        ensures
            exists|now: u64| final(self)@ == #[trigger] old(self)@.update(now),
    {
        let now: u64 = self.clock.now_ms();
        self.update_at(now);
    }

    /// Checks the sender at `now`. Gives the length of the silence, in
    /// milliseconds, when a warning is due, which it then counts as given.
    pub fn check_at(&mut self, now: u64) -> (r: Option<u64>)
        ensures
            final(self)@ == old(self)@.check(now),
            r == old(self)@.warning(now),
    {
        let silence: u64 = now.saturating_sub(self.last_time);
        if silence > self.interval && now.saturating_sub(self.last_log) > WARNING_PERIOD_MS {
            self.last_log = now;
            Some(silence)
        } else {
            None
        }
    }

    /// Checks the sender now: [`HeartBeat::check_at`] at the reading of the
    /// watch's clock.
    pub fn check(&mut self) -> (r: Option<u64>)
        ensures
            exists|now: u64|
                final(self)@ == #[trigger] old(self)@.check(now) && r == old(self)@.warning(now),
    {
        let now: u64 = self.clock.now_ms();
        self.check_at(now)
    }
}

/// Two warnings are more than a second apart, whatever was heard of the sender
/// in between.
pub proof fn lemma_warnings_spaced(watch: HeartBeatView, first: u64, heard: u64, second: u64)
    requires
        watch.warns(first),
        first <= second,
        watch.check(first).update(heard).warns(second) || watch.check(first).warns(second),
    ensures
        second - first > 1000,
{
}

/// A sender heard within the interval raises no warning.
pub proof fn lemma_heard_in_time(watch: HeartBeatView, heard: u64, now: u64)
    requires
        elapsed(heard, now) <= watch.interval,
    ensures
        !watch.update(heard).warns(now),
        watch.update(heard).check(now) == watch.update(heard),
{
}

} // verus!
