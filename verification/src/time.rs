//! Points in time and lengths of time, in seconds since the Unix epoch.

use vstd::prelude::*;

verus! {

/// A length of time: whole seconds, and nanoseconds beyond them.
#[derive(Clone, Copy, Debug, PartialEq, Eq, Structural, Default)]
pub struct Span {
    pub secs: u64,
    /// Less than one second.
    pub nanos: u32,
}

impl Span {
    /// The nanoseconds are less than one second.
    pub open spec fn wf(&self) -> bool {
        self.nanos < 1_000_000_000
    }

    /// Whether the span has no length.
    pub open spec fn zero(&self) -> bool {
        self.secs == 0 && self.nanos == 0
    }

    /// A span of whole seconds.
    pub fn from_secs(secs: u64) -> (r: Span)
        ensures
            r.wf(),
            r == (Span { secs: secs, nanos: 0 }),
    {
        Span { secs, nanos: 0 }
    }

    /// Whether the span has no length.
    pub fn is_zero(&self) -> (r: bool)
        ensures
            r == self.zero(),
    {
        self.secs == 0 && self.nanos == 0
    }
}

/// A point in time.
#[derive(Debug, PartialEq, Eq)]
pub enum Moment {
    /// Before the Unix epoch, with what the clock has to say about it.
    BeforeEpoch(String),
    /// That long after the Unix epoch.
    SinceEpoch(Span),
}

impl Moment {
    /// The time of day is within its second.
    pub open spec fn wf(&self) -> bool {
        match self {
            Moment::BeforeEpoch(_) => true,
            Moment::SinceEpoch(s) => s.wf(),
        }
    }
}

/// `n`, or the largest `i64` where `n` is larger.
pub open spec fn at_most_max(n: int) -> i64 {
    if n <= i64::MAX {
        n as i64
    } else {
        i64::MAX
    }
}

/// The Unix time of a moment: zero before the epoch.
pub open spec fn unix_time(m: Moment) -> i64 {
    match m {
        Moment::BeforeEpoch(_) => 0,
        Moment::SinceEpoch(s) => at_most_max(s.secs as int),
    }
}

/// The machine's clock: `std::time::SystemTime::now`, taken as what
/// `duration_since` the Unix epoch says of it. Nothing is promised of the time
/// itself; the nanoseconds beyond the second are less than a second.
#[verifier::external_body]
pub(crate) fn clock() -> (r: Moment)
    ensures
        r.wf(),
{
    match std::time::SystemTime::now().duration_since(std::time::UNIX_EPOCH) {
        Ok(d) => Moment::SinceEpoch(Span { secs: d.as_secs(), nanos: d.subsec_nanos() }),
        Err(e) => Moment::BeforeEpoch(e.to_string()),
    }
}

/// `n`, or the largest `i64` where `n` is larger.
pub fn capped(n: u64) -> (r: i64)
    ensures
        r == at_most_max(n as int),
        r >= 0,
{
    if n <= 0x7fff_ffff_ffff_ffff {
        n as i64
    } else {
        i64::MAX
    }
}

/// The Unix time of a moment: zero before the epoch.
pub fn unix_of(moment: &Moment) -> (r: i64)
    ensures
        r == unix_time(*moment),
        r >= 0,
{
    match moment {
        Moment::BeforeEpoch(_) => 0,
        Moment::SinceEpoch(s) => capped(s.secs),
    }
}

/// The Unix time of `time`, or that of the clock where there is none.
pub fn unix_or_now(time: &Option<Moment>) -> (r: i64)
    ensures
        r >= 0,
        time matches Some(m) ==> r == unix_time(*m),
{
    match time {
        Some(moment) => unix_of(moment),
        None => now_unix(),
    }
}

/// The Unix time by the clock, as [`unix_of`] makes it of what the clock says.
/// Which time that is, is up to the machine and left unsaid.
pub fn now_unix() -> (r: i64)
    ensures
        r >= 0,
{
    unix_of(&clock())
}

/// The whole seconds of a span.
pub open spec fn whole_seconds(ttl: Span) -> i64 {
    at_most_max(ttl.secs as int)
}

/// The whole seconds of a span, or `default` where the span has no length.
pub open spec fn seconds_or(ttl: Span, default: u64) -> i64 {
    at_most_max(
        if ttl.zero() {
            default as int
        } else {
            ttl.secs as int
        },
    )
}

/// The whole seconds of a span.
pub fn ttl_seconds(ttl: Span) -> (r: i64)
    ensures
        r == whole_seconds(ttl),
        r >= 0,
{
    capped(ttl.secs)
}

/// The whole seconds of a span, or `default` where the span has no length.
pub fn seconds_or_default(ttl: Span, default: u64) -> (r: i64)
    ensures
        r == seconds_or(ttl, default),
        r >= 0,
{
    if ttl.is_zero() {
        capped(default)
    } else {
        capped(ttl.secs)
    }
}

/// The time `seconds` after `now`, or the last that an `i64` can hold.
pub open spec fn time_after(now: i64, seconds: i64) -> i64 {
    at_most_max(now + seconds)
}

/// The time `seconds` after `now`, or the last that an `i64` can hold.
pub fn later(now: i64, seconds: i64) -> (r: i64)
    requires
        now >= 0,
        seconds >= 0,
    ensures
        r == time_after(now, seconds),
        r >= now,
{
    if seconds <= i64::MAX - now {
        now + seconds
    } else {
        i64::MAX
    }
}

/// A time is so many seconds after another, and the last there is where that would be
/// later still. A span counts by its whole seconds, and by the usual number where it has
/// no length at all.
pub proof fn law_time_goes_on(now: i64, seconds: i64, ttl: Span, usual: u64)
    requires
        0 <= now,
        0 <= seconds,
    ensures
        now + seconds <= i64::MAX ==> time_after(now, seconds) == now + seconds,
        now + seconds > i64::MAX ==> time_after(now, seconds) == i64::MAX,
        ttl.secs <= i64::MAX ==> whole_seconds(ttl) == ttl.secs,
        ttl.secs > i64::MAX ==> whole_seconds(ttl) == i64::MAX,
        ttl.secs > 0 || ttl.nanos > 0 ==> seconds_or(ttl, usual) == whole_seconds(ttl),
        ttl.secs == 0 && ttl.nanos == 0 && usual <= i64::MAX ==> seconds_or(ttl, usual) == usual,
{
}

/// The Unix time of a moment is its whole seconds since the epoch, zero before it, and
/// the largest that there is where the seconds are more.
pub proof fn law_unix_time_is_whole_seconds(s: Span, why: String)
    ensures
        s.secs <= i64::MAX ==> unix_time(Moment::SinceEpoch(s)) == s.secs,
        s.secs > i64::MAX ==> unix_time(Moment::SinceEpoch(s)) == i64::MAX,
        unix_time(Moment::BeforeEpoch(why)) == 0,
{
}

} // verus!
