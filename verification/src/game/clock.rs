use rusty_time::timer::Timer;
use std::time::Duration;
use vstd::prelude::*;

verus! {

/// Nanoseconds in one second.
pub const NANOS_PER_SEC: u32 = 1_000_000_000;

/// Nanoseconds in one millisecond.
pub const NANOS_PER_MILLI: u32 = 1_000_000;

/// A length of time: whole seconds, and the nanoseconds beyond them.
#[derive(Clone, Copy, Debug, PartialEq, Eq, Structural)]
pub struct Span {
    pub secs: u64,
    pub nanos: u32,
}

impl Span {
    /// The nanosecond part stays below one second.
    pub open spec fn wf(&self) -> bool {
        self.nanos < NANOS_PER_SEC
    }

    /// The length in nanoseconds.
    pub open spec fn total(&self) -> nat {
        (self.secs as nat) * (NANOS_PER_SEC as nat) + (self.nanos as nat)
    }

    /// The well-formed span of `n` nanoseconds, for `n` within the range of a `Span`.
    pub open spec fn of_nanos(n: nat) -> Span {
        Span {
            secs: (n / (NANOS_PER_SEC as nat)) as u64,
            nanos: (n % (NANOS_PER_SEC as nat)) as u32,
        }
    }

    /// The length in whole milliseconds, rounded down.
    pub open spec fn millis(&self) -> nat {
        self.total() / (NANOS_PER_MILLI as nat)
    }

    /// The empty span.
    pub fn zero() -> (r: Span)
        ensures
            r.wf(),
            r.total() == 0,
    {
        Span { secs: 0, nanos: 0 }
    }

    /// The span of `ms` milliseconds.
    pub fn from_millis(ms: u64) -> (r: Span)
        ensures
            r.wf(),
            r.total() == (ms as nat) * (NANOS_PER_MILLI as nat),
            r == Span::of_nanos((ms as nat) * (NANOS_PER_MILLI as nat)),
    {
        let secs: u64 = ms / 1000;
        let rest: u64 = ms % 1000;
        let nanos: u32 = (rest as u32) * 1_000_000;
        proof {
            let n: nat = (ms as nat) * (NANOS_PER_MILLI as nat);
            assert(n == (secs as nat) * 1_000_000_000 + (nanos as nat)) by (nonlinear_arith)
                requires
                    n == (ms as nat) * 1_000_000,
                    secs == ms / 1000,
                    rest == ms % 1000,
                    nanos == rest * 1_000_000,
            ;
            assert(n / 1_000_000_000 == secs as nat && n % 1_000_000_000 == nanos as nat)
                by (nonlinear_arith)
                requires
                    n == (secs as nat) * 1_000_000_000 + (nanos as nat),
                    nanos < 1_000_000_000,
            ;
        }
        Span { secs, nanos }
    }

    /// The length in nanoseconds.
    pub fn as_nanos(&self) -> (r: u128)
        ensures
            r == self.total(),
    {
        (self.secs as u128) * 1_000_000_000 + (self.nanos as u128)
    }

    /// The length in whole milliseconds, rounded down.
    pub fn as_millis(&self) -> (r: u128)
        ensures
            r == self.millis(),
    {
        self.as_nanos() / 1_000_000
    }
}

/// A countdown that is driven from outside: it runs from `duration` down to
/// zero as time is reported to it, and becomes `ready` once more time has been
/// reported than was left.
#[derive(Clone, Copy, Debug, PartialEq, Eq, Structural)]
pub struct Countdown {
    pub duration: Span,
    pub time_left: Span,
    pub ready: bool,
}

impl Countdown {
    /// Both spans are well formed.
    pub open spec fn wf(&self) -> bool {
        self.duration.wf() && self.time_left.wf()
    }

    /// A fresh countdown of `ms` milliseconds.
    pub open spec fn started(ms: u64) -> Countdown {
        let span = Span::of_nanos((ms as nat) * (NANOS_PER_MILLI as nat));
        Countdown { duration: span, time_left: span, ready: false }
    }

    /// The countdown wound back to its full duration.
    pub open spec fn rewound(self) -> Countdown {
        Countdown { duration: self.duration, time_left: self.duration, ready: false }
    }

    /// The countdown after `delta` has passed. A countdown that is ready stays as
    /// it is. Otherwise `delta` is taken from the time left; where `delta` is
    /// longer than the time left, the time left is zero and the countdown is ready.
    pub open spec fn aged(self, delta: Span) -> Countdown {
        if self.ready {
            self
        } else if delta.total() <= self.time_left.total() {
            Countdown {
                duration: self.duration,
                time_left: Span::of_nanos((self.time_left.total() - delta.total()) as nat),
                ready: false,
            }
        } else {
            Countdown { duration: self.duration, time_left: Span { secs: 0, nanos: 0 }, ready: true }
        }
    }

    /// Whether more than half of the duration is still left.
    pub open spec fn in_first_half(&self) -> bool {
        2 * self.time_left.total() > self.duration.total()
    }

    /// A fresh countdown of `ms` milliseconds.
    pub fn from_millis(ms: u64) -> (r: Countdown)
        ensures
            r == Countdown::started(ms),
            r.wf(),
            r.duration.millis() == ms,
    {
        proof {
            lemma_started_wf(ms);
        }
        timer_from_millis(ms)
    }

    /// Winds the countdown back to its full duration.
    pub fn reset(&mut self)
        requires
            old(self).wf(),
        ensures
            *final(self) == old(self).rewound(),
            final(self).wf(),
    {
        *self = timer_reset(*self);
    }

    /// Lets `delta` pass.
    pub fn update(&mut self, delta: Span)
        requires
            old(self).wf(),
            delta.wf(),
        ensures
            *final(self) == old(self).aged(delta),
            final(self).wf(),
    {
        proof {
            if !self.ready && delta.total() <= self.time_left.total() {
                lemma_of_nanos_wf((self.time_left.total() - delta.total()) as nat);
            }
        }
        *self = timer_update(*self, delta);
    }

    /// Whether more than half of the duration is still left.
    pub fn first_half(&self) -> (r: bool)
        ensures
            r == self.in_first_half(),
    {
        2 * self.time_left.as_nanos() > self.duration.as_nanos()
    }
}

/// A span made from a number of nanoseconds is well formed, and where the
/// number is within a `Span`'s range, it is the span's length.
pub proof fn lemma_of_nanos_wf(n: nat)
    ensures
        Span::of_nanos(n).wf(),
        n / (NANOS_PER_SEC as nat) <= u64::MAX ==> Span::of_nanos(n).total() == n,
{
    let q = n / 1_000_000_000;
    let r = n % 1_000_000_000;
    assert(n == q * 1_000_000_000 + r && r < 1_000_000_000) by (nonlinear_arith)
        requires
            q == n / 1_000_000_000,
            r == n % 1_000_000_000,
    ;
}

/// A fresh countdown is well formed and lasts the milliseconds it was made with.
pub proof fn lemma_started_wf(ms: u64)
    ensures
        Countdown::started(ms).wf(),
        Countdown::started(ms).duration.millis() == ms,
        Countdown::started(ms).duration.total() == (ms as nat) * (NANOS_PER_MILLI as nat),
{
    let n: nat = (ms as nat) * (NANOS_PER_MILLI as nat);
    lemma_of_nanos_wf(n);
    assert(n / 1_000_000_000 <= u64::MAX) by (nonlinear_arith)
        requires
            n == (ms as nat) * 1_000_000,
            ms <= u64::MAX,
    ;
}

/// Time that passes, and winding back, keep a countdown well formed and leave
/// its duration as it is.
pub proof fn lemma_aged_wf(countdown: Countdown, delta: Span)
    requires
        countdown.wf(),
    ensures
        countdown.aged(delta).wf(),
        countdown.aged(delta).duration == countdown.duration,
        countdown.rewound().wf(),
        countdown.rewound().duration == countdown.duration,
{
    if !countdown.ready && delta.total() <= countdown.time_left.total() {
        lemma_of_nanos_wf((countdown.time_left.total() - delta.total()) as nat);
    }
}

/// Calls `rusty_time::timer::Timer::from_millis` and hands back the timer's
/// three fields: the duration and the time left are both `ms` milliseconds, and
/// the timer is not ready.
#[verifier::external_body]
fn timer_from_millis(ms: u64) -> (r: Countdown)
    ensures
        r == Countdown::started(ms),
{
    let timer = Timer::from_millis(ms);
    Countdown {
        duration: Span { secs: timer.duration.as_secs(), nanos: timer.duration.subsec_nanos() },
        time_left: Span { secs: timer.time_left.as_secs(), nanos: timer.time_left.subsec_nanos() },
        ready: timer.ready,
    }
}

/// Calls `rusty_time::timer::Timer::reset` on a timer with the fields of `t`:
/// the time left becomes the duration again, and the timer is not ready.
#[verifier::external_body]
fn timer_reset(t: Countdown) -> (r: Countdown)
    requires
        t.wf(),
    ensures
        r == t.rewound(),
{
    let mut timer = Timer {
        duration: Duration::new(t.duration.secs, t.duration.nanos),
        time_left: Duration::new(t.time_left.secs, t.time_left.nanos),
        ready: t.ready,
    };
    timer.reset();
    Countdown {
        duration: Span { secs: timer.duration.as_secs(), nanos: timer.duration.subsec_nanos() },
        time_left: Span { secs: timer.time_left.as_secs(), nanos: timer.time_left.subsec_nanos() },
        ready: timer.ready,
    }
}

/// Calls `rusty_time::timer::Timer::update` on a timer with the fields of `t`.
/// A ready timer is left alone. Otherwise the timer subtracts `delta` from the
/// time left; where that would go below zero it sets the time left to zero and
/// becomes ready.
#[verifier::external_body]
fn timer_update(t: Countdown, delta: Span) -> (r: Countdown)
    requires
        t.wf(),
        delta.wf(),
    ensures
        r == t.aged(delta),
{
    let mut timer = Timer {
        duration: Duration::new(t.duration.secs, t.duration.nanos),
        time_left: Duration::new(t.time_left.secs, t.time_left.nanos),
        ready: t.ready,
    };
    timer.update(Duration::new(delta.secs, delta.nanos));
    Countdown {
        duration: Span { secs: timer.duration.as_secs(), nanos: timer.duration.subsec_nanos() },
        time_left: Span { secs: timer.time_left.as_secs(), nanos: timer.time_left.subsec_nanos() },
        ready: timer.ready,
    }
}

} // verus!
