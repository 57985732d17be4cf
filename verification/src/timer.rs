use vstd::prelude::*;

verus! {

/// A started timer only begins to run once this many milliseconds have
/// passed, so that a slow frame right after a transition cannot count
/// toward expiry.
pub const GRACE_DELAY_MS: u64 = 100;

/// Upper bound on every timestamp and duration the timer handles, far
/// beyond any real wall-clock reading in milliseconds; it keeps the
/// timer arithmetic inside u64.
pub const MAX_TIME_MS: u64 = 0x4000_0000_0000;

/// The mathematical state of a timer: all times in milliseconds.
/// A pause mark of 0 means "not paused".
pub ghost struct TimerModel {
    pub running: bool,
    pub start: int,
    pub pause: int,
    pub dur: int,
}

impl TimerModel {
    pub open spec fn inv(self) -> bool {
        &&& 0 <= self.start <= MAX_TIME_MS
        &&& 0 <= self.pause <= MAX_TIME_MS
        &&& 0 <= self.dur <= MAX_TIME_MS
        &&& self.pause != 0 ==> self.pause >= self.start
    }
}

/// Starting resets the start mark to the current time and leaves the
/// timer inactive until a later activation observes the grace delay.
pub open spec fn spec_start(m: TimerModel, now: int) -> TimerModel {
    TimerModel { running: false, start: now, ..m }
}

/// Activation turns the timer on only once the grace delay has passed.
pub open spec fn spec_activate(m: TimerModel, now: int) -> TimerModel {
    if now > m.start + GRACE_DELAY_MS {
        TimerModel { running: true, ..m }
    } else {
        m
    }
}

/// Pausing records the pause mark once and stops the timer; pausing an
/// already paused timer changes nothing.
pub open spec fn spec_pause(m: TimerModel, now: int) -> TimerModel {
    if m.pause == 0 {
        TimerModel { running: false, pause: now, ..m }
    } else {
        m
    }
}

/// Resuming shifts the start mark forward by the paused interval, so the
/// elapsed running time is preserved, and clears the pause mark; resuming
/// a timer that is not paused changes nothing.
pub open spec fn spec_resume(m: TimerModel, now: int) -> TimerModel {
    if m.pause > 0 {
        TimerModel { start: now - (m.pause - m.start), pause: 0, ..m }
    } else {
        m
    }
}

/// Finishing stops the timer for good until it is started again.
pub open spec fn spec_finish(m: TimerModel) -> TimerModel {
    TimerModel { running: false, start: 0, ..m }
}

/// A timer is over exactly when it is running and its duration has
/// elapsed since its start mark.
pub open spec fn spec_is_over(m: TimerModel, now: int) -> bool {
    m.running && now >= m.start + m.dur
}

/// A wall-clock countdown. All operations take the current time as a
/// millisecond reading of the wall clock; the caller samples the clock.
pub struct Timer {
    is_running: bool,
    start_time: u64,
    pause_time: u64,
    duration: u64,
}

impl View for Timer {
    type V = TimerModel;

    closed spec fn view(&self) -> TimerModel {
        TimerModel {
            running: self.is_running,
            start: self.start_time as int,
            pause: self.pause_time as int,
            dur: self.duration as int,
        }
    }
}

impl Timer {
    /// An idle timer that will count down the given number of seconds.
    pub fn new(duration: i32) -> (r: Timer)
        requires
            0 <= duration,
        ensures
            r@ == (TimerModel { running: false, start: 0, pause: 0, dur: duration * 1000 }),
            r@.inv(),
    {
        Timer { is_running: false, start_time: 0, pause_time: 0, duration: (duration as u64) * 1000 }
    }

    pub fn is_active(&self) -> (r: bool)
        ensures
            r == self@.running,
    {
        self.is_running
    }

    pub fn is_paused(&self) -> (r: bool)
        ensures
            r == (self@.pause != 0),
    {
        self.pause_time != 0
    }

    pub fn start_is_zero(&self) -> (r: bool)
        ensures
            r == (self@.start == 0),
    {
        self.start_time == 0
    }

    pub fn activate(&mut self, now_ms: u64)
        requires
            old(self)@.inv(),
            now_ms <= MAX_TIME_MS,
        ensures
            final(self)@ == spec_activate(old(self)@, now_ms as int),
            final(self)@.inv(),
    {
        if now_ms > self.start_time + GRACE_DELAY_MS {
            self.is_running = true;
        }
    }

    /// Starting is only for a timer that is not paused: a round constructs
    /// a fresh timer and starts it.
    pub fn start(&mut self, now_ms: u64)
        requires
            old(self)@.inv(),
            old(self)@.pause == 0,
            now_ms <= MAX_TIME_MS,
        ensures
            final(self)@ == spec_start(old(self)@, now_ms as int),
            final(self)@.inv(),
    {
        self.is_running = false;
        self.start_time = now_ms;
    }

    /// The current time may not lie before the start mark: both are
    /// readings of the same monotone wall clock.
    pub fn pause(&mut self, now_ms: u64)
        requires
            old(self)@.inv(),
            old(self)@.start <= now_ms <= MAX_TIME_MS,
        ensures
            final(self)@ == spec_pause(old(self)@, now_ms as int),
            final(self)@.inv(),
    {
        if self.pause_time == 0 {
            self.is_running = false;
            self.pause_time = now_ms;
        }
    }

    /// The current time may not lie before the pause mark: both are
    /// readings of the same monotone wall clock.
    pub fn resume(&mut self, now_ms: u64)
        requires
            old(self)@.inv(),
            old(self)@.pause <= now_ms <= MAX_TIME_MS,
        ensures
            final(self)@ == spec_resume(old(self)@, now_ms as int),
            final(self)@.inv(),
    {
        if self.pause_time > 0 {
            self.start_time = now_ms - (self.pause_time - self.start_time);
            self.pause_time = 0;
        }
    }

    pub fn finish(&mut self)
        requires
            old(self)@.inv(),
        ensures
            final(self)@ == spec_finish(old(self)@),
            final(self)@.inv(),
    {
        self.is_running = false;
        self.start_time = 0;
    }

    pub fn is_over(&self, now_ms: u64) -> (r: bool)
        requires
            self@.inv(),
            now_ms <= MAX_TIME_MS,
        ensures
            r == spec_is_over(self@, now_ms as int),
    {
        self.is_running && now_ms >= self.start_time + self.duration
    }

    /// How many milliseconds are left before expiry; 0 when the timer is
    /// not running or already over.
    pub fn remaining_ms(&self, now_ms: u64) -> (r: u64)
        requires
            self@.inv(),
            now_ms <= MAX_TIME_MS,
        ensures
            r == if self@.running && self@.start + self@.dur > now_ms {
                self@.start + self@.dur - now_ms
            } else {
                0
            },
    {
        if self.is_running && self.start_time + self.duration > now_ms {
            self.start_time + self.duration - now_ms
        } else {
            0
        }
    }
}

/// Pausing and resuming postpones expiry by exactly the paused interval.
/// A timer of duration d that is running since its start mark t0, paused
/// at t0 + p (before it expires) and resumed at t0 + p + r, carries the
/// start mark t0 + r afterwards; once re-activated at any time t, it is
/// over exactly when t >= t0 + d + r, so the paused interval does not
/// count against the countdown.
pub proof fn lemma_pause_resume_shifts_expiry(t0: int, p: int, r: int, d: int, t: int)
    requires
        0 < t0,
        0 <= p < d,
        0 <= r,
        GRACE_DELAY_MS < d,
        t0 + p + r + d <= MAX_TIME_MS,
    ensures
        ({
            let running = TimerModel { running: true, start: t0, pause: 0, dur: d };
            let resumed = spec_resume(spec_pause(running, t0 + p), t0 + p + r);
            &&& resumed.start == t0 + r
            &&& !resumed.running
            &&& (spec_is_over(spec_activate(resumed, t), t) <==> t >= t0 + d + r)
        }),
{
}

} // verus!
