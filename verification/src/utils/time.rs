//! Durations, time stamps and interval timers.

use std::time::Instant;
use vstd::prelude::*;

verus! {

/// Seconds and nanoseconds since the Unix epoch.
pub type Timestamp = (u64, u32);

pub const NANOS_PER_SEC: u128 = 1_000_000_000;

/// A span of time, counted in nanoseconds.
#[derive(Debug, Clone, Copy, PartialEq, Eq, Structural)]
pub struct Duration {
    pub nanos: u128,
}

impl View for Duration {
    type V = nat;

    open spec fn view(&self) -> nat {
        self.nanos as nat
    }
}

impl Duration {
    /// The empty span.
    pub fn zero() -> (d: Self)
        ensures
            d@ == 0,
    {
        Duration { nanos: 0 }
    }

    /// The span of `secs` seconds and `nanos` nanoseconds.
    pub fn new(secs: u64, nanos: u32) -> (d: Self)
        ensures
            d@ == secs * 1_000_000_000 + nanos,
    {
        Duration { nanos: secs as u128 * NANOS_PER_SEC + nanos as u128 }
    }

    /// The span of `millis` milliseconds.
    pub fn from_millis(millis: u64) -> (d: Self)
        ensures
            d@ == millis * 1_000_000,
    {
        Duration { nanos: millis as u128 * 1_000_000 }
    }

    /// This span without `other`, or none where `other` is longer.
    pub fn saturating_sub(self, other: Duration) -> (d: Self)
        ensures
            d@ == if self@ >= other@ {
                (self@ - other@) as nat
            } else {
                0
            },
    {
        Duration { nanos: self.nanos.saturating_sub(other.nanos) }
    }

    /// Whether this span is empty.
    pub fn is_zero(&self) -> (r: bool)
        ensures
            r == (self@ == 0),
    {
        self.nanos == 0
    }

    /// Whether this span is longer than `other`.
    pub fn exceeds(&self, other: &Duration) -> (r: bool)
        ensures
            r == (self@ > other@),
    {
        self.nanos > other.nanos
    }

    /// The whole milliseconds of this span.
    pub fn as_millis(&self) -> (ms: u128)
        ensures
            ms as nat == self@ / 1_000_000,
    {
        self.nanos / 1_000_000
    }
}

/// A point of the monotonic clock.
#[verifier::external_type_specification]
#[verifier::external_body]
pub struct ExInstant(Instant);

/// `Instant::now`: the current point of the monotonic clock. Nothing is claimed of it.
pub assume_specification[ Instant::now ]() -> Instant
;

/// `Instant::elapsed`: the time since `from`, in nanoseconds. It depends on the clock; a span
/// that the standard library measures has at most `u64::MAX` seconds and a part of one more.
#[verifier::external_body]
fn nanos_since(from: &Instant) -> (n: u128)
    ensures
        n < 0x1_0000_0000_0000_0000 * 1_000_000_000,
{
    from.elapsed().as_nanos()
}

/// `SystemTime::elapsed` of the Unix epoch: the seconds and nanoseconds since then, or nothing
/// where the clock stands before it. It depends on the clock; a part of a second has fewer than
/// 1000000000 nanoseconds.
#[verifier::external_body]
fn unix_clock() -> (r: Option<(u64, u32)>)
    ensures
        r matches Some(t) ==> t.1 < 1_000_000_000,
{
    std::time::UNIX_EPOCH.elapsed().ok().map(|d| (d.as_secs(), d.subsec_nanos()))
}

/// Whether the monotonic clock may stand at `i` when it is read.
pub open spec fn stood_at(i: Instant) -> bool {
    call_ensures(Instant::now, (), i)
}

/// Whether the monotonic clock may measure `d` since `from`.
pub closed spec fn measured(from: Instant, d: Duration) -> bool {
    call_ensures(nanos_since, (&from,), d.nanos)
}

/// The time since `from`, as the monotonic clock measures it.
pub fn elapsed(from: &Instant) -> (d: Duration)
    ensures
        measured(*from, d),
        clock_range(d@),
{
    Duration { nanos: nanos_since(from) }
}

/// The spans that a clock can measure.
pub open spec fn clock_range(nanos: nat) -> bool {
    nanos < 0x1_0000_0000_0000_0000 * 1_000_000_000
}

/// A reading of the time since the Unix epoch, if the clock has one.
pub open spec fn clock_reading(now: Option<Duration>) -> bool {
    now matches Some(d) ==> clock_range(d@)
}

/// Whether the clock may give `read` as the seconds and nanoseconds since the Unix epoch.
pub closed spec fn read_off(read: Option<(u64, u32)>) -> bool {
    call_ensures(unix_clock, (), read)
}

/// Whether `now` is the time since the Unix epoch that a reading of the clock comes to, or none
/// where it stands before the epoch.
pub open spec fn told(now: Option<Duration>) -> bool {
    exists|read: Option<(u64, u32)>| #[trigger]
        read_off(read) && match read {
            Some(t) => t.1 < 1_000_000_000 && (now matches Some(d) && d@ == t.0 * 1_000_000_000
                + t.1),
            None => now is None,
        }
}

/// The time since the Unix epoch that the clock gives, or nothing where it stands before it.
pub fn duration_since_unix_epoch() -> (r: Option<Duration>)
    ensures
        clock_reading(r),
        told(r),
{
    let read = unix_clock();
    assert(read_off(read));
    match read {
        Some(t) => Some(Duration::new(t.0, t.1)),
        None => None,
    }
}

/// The time stamp of the reading `now`.
pub open spec fn stamp_at(now: Option<Duration>) -> Timestamp {
    match now {
        Some(d) => ((d@ / 1_000_000_000) as u64, (d@ % 1_000_000_000) as u32),
        None => (0u64, 0u32),
    }
}

/// The time stamp of the reading `now`.
pub fn timestamp_at(now: Option<Duration>) -> (t: Timestamp)
    requires
        clock_reading(now),
    ensures
        t == stamp_at(now),
{
    match now {
        Some(d) => ((d.nanos / NANOS_PER_SEC) as u64, (d.nanos % NANOS_PER_SEC) as u32),
        None => (0, 0),
    }
}

/// The current time stamp: the seconds and nanoseconds that the clock gives, or zero where it
/// stands before the epoch.
pub fn get_timestamp() -> (t: Timestamp)
    ensures
        exists|read: Option<(u64, u32)>| #[trigger]
            read_off(read) && t == match read {
                Some(stamp) => stamp,
                None => (0u64, 0u32),
            },
        t.1 < 1_000_000_000,
{
    let now = duration_since_unix_epoch();
    timestamp_at(now)
}

/// The nanoseconds from `stamp` to the reading `now`, none where the stamp is later. A clock
/// without a reading counts as one at the epoch.
pub open spec fn since(now: Option<Duration>, stamp: Timestamp) -> nat {
    let reading = match now {
        Some(d) => d@,
        None => 0,
    };
    let stamped = stamp.0 * 1_000_000_000 + stamp.1;
    if reading >= stamped {
        (reading - stamped) as nat
    } else {
        0
    }
}

/// The time from `stamp` to the reading `now`.
pub fn duration_between(now: Option<Duration>, stamp: &Timestamp) -> (d: Duration)
    ensures
        d@ == since(now, *stamp),
{
    let reading = match now {
        Some(d) => d,
        None => Duration::zero(),
    };
    reading.saturating_sub(Duration::new(0, stamp.1)).saturating_sub(Duration::new(stamp.0, 0))
}

/// The time from `stamp` to now.
pub fn duration_since_timestamp(stamp: &Timestamp) -> (d: Duration)
    ensures
        exists|now: Option<Duration>| #[trigger] told(now) && d@ == since(now, *stamp),
{
    let now = duration_since_unix_epoch();
    duration_between(now, stamp)
}

/// Reports when an interval has passed.
#[derive(Debug, Clone, Copy)]
pub struct IntervalTimer {
    /// The interval; a timer with none never ticks.
    pub duration: Duration,
    /// When the timer ticked last, counted from its creation.
    pub last_tick: Duration,
    /// How long before its creation the timer ticked last, where it has not ticked since.
    pub lead: Duration,
    /// When the timer was created.
    pub started: Instant,
}

impl IntervalTimer {
    /// When this timer ticked last, in nanoseconds from its creation.
    pub open spec fn ticked(&self) -> int {
        self.last_tick@ - self.lead@
    }

    /// Whether this timer ticks at `now`, in nanoseconds from its creation: more than the interval
    /// has passed, and there is one.
    pub open spec fn due(&self, now: nat) -> bool {
        self.duration@ != 0 && now - self.ticked() > self.duration@
    }

    /// Whether `after` is this timer behind a look at `now`.
    pub open spec fn looked_at(&self, now: nat, after: Self) -> bool {
        &&& after.duration == self.duration
        &&& after.started == self.started
        &&& after.ticked() == if self.due(now) {
            now as int
        } else {
            self.ticked()
        }
    }

    /// A timer that is created now and whose last tick lies one interval back, so that it ticks
    /// at the first chance.
    pub fn new(duration: Duration) -> (t: Self)
        ensures
            t.duration == duration,
            t.ticked() == -duration@,
            stood_at(t.started),
    {
        IntervalTimer { duration, last_tick: Duration::zero(), lead: duration, started: Instant::now() }
    }

    /// Whether the interval has passed at `now`, counted from the creation of the timer; if it
    /// has, it begins again.
    pub fn tick_at(&mut self, now: Duration) -> (r: bool)
        ensures
            r == old(self).due(now@),
            old(self).looked_at(now@, *final(self)),
    {
        if self.duration.is_zero() {
            return false;
        }
        let passed: bool = if now.nanos >= self.last_tick.nanos {
            let gap: u128 = now.nanos - self.last_tick.nanos;
            self.lead.nanos > self.duration.nanos || gap > self.duration.nanos - self.lead.nanos
        } else {
            let back: u128 = self.last_tick.nanos - now.nanos;
            self.lead.nanos > back && self.lead.nanos - back > self.duration.nanos
        };
        if passed {
            self.last_tick = now;
            self.lead = Duration::zero();
        }
        passed
    }

    /// Whether the interval has passed; if it has, it begins again.
    pub fn tick(&mut self) -> (r: bool)
        ensures
            exists|now: Duration| #[trigger]
                measured(old(self).started, now) && r == old(self).due(now@) && old(self).looked_at(
                    now@,
                    *final(self),
                ),
    {
        let now = elapsed(&self.started);
        self.tick_at(now)
    }
}

/// Two ticks of a timer lie more than its interval apart, however often it is looked at between
/// them.
pub proof fn ticks_lie_apart(
    timer: IntervalTimer,
    first: nat,
    ticked: IntervalTimer,
    looks: Seq<nat>,
    timers: Seq<IntervalTimer>,
    second: nat,
)
    requires
        timer.due(first),
        timer.looked_at(first, ticked),
        timers.len() == looks.len() + 1,
        timers[0] == ticked,
        forall|i: int|
            0 <= i < looks.len() ==> !(#[trigger] timers[i]).due(looks[i]) && timers[i].looked_at(
                looks[i],
                timers[i + 1],
            ),
        timers.last().due(second),
    ensures
        second - first > timer.duration@,
    decreases looks.len(),
{
    if looks.len() > 0 {
        let fewer = looks.drop_first();
        let rest = timers.drop_first();
        let next = timers[1];
        assert(!timers[0].due(looks[0]) && timers[0].looked_at(looks[0], timers[1]));
        assert(next.ticked() == ticked.ticked() && next.duration == ticked.duration);
        assert(timer.looked_at(first, next));
        assert forall|i: int| 0 <= i < fewer.len() implies !(#[trigger] rest[i]).due(fewer[i])
            && rest[i].looked_at(fewer[i], rest[i + 1]) by {
            assert(rest[i] == timers[i + 1]);
            assert(!timers[i + 1].due(looks[i + 1]));
        }
        ticks_lie_apart(timer, first, next, fewer, rest, second);
    }
}

} // verus!
