//! Instants and the time that lies between two of them.
//!
//! The clock and the calendar arithmetic are `chrono`'s. What is believed of
//! them is written on the functions marked `external_body`; everything else
//! here is proved from those statements.

use vstd::prelude::*;

verus! {

/// The earliest second that `chrono` can hold: the start of the year -262143.
pub const MIN_SECS: i64 = -8_334_601_228_800;

/// The latest second that `chrono` can hold: the end of the year 262142.
pub const MAX_SECS: i64 = 8_210_266_876_799;

/// Nanoseconds in one second.
pub const NANOS_PER_SEC: u32 = 1_000_000_000;

/// The widest span of whole seconds that `chrono::Duration` can hold.
pub const MAX_SPAN: i64 = 9_223_372_036_854_775;

/// An instant in UTC: whole seconds since the Unix epoch and the nanoseconds
/// into that second. Every value lies in the range that `chrono` can hold and
/// names no leap second.
#[derive(Clone, Copy, Debug, PartialEq, Eq)]
pub struct Timestamp {
    secs: i64,
    nanos: u32,
}

impl Timestamp {
    /// Whole seconds since the Unix epoch.
    pub closed spec fn secs(self) -> int {
        self.secs as int
    }

    /// Nanoseconds into the second.
    pub closed spec fn nanos(self) -> int {
        self.nanos as int
    }

    /// The range every instant lies in.
    #[verifier::type_invariant]
    pub closed spec fn wf(self) -> bool {
        &&& MIN_SECS <= self.secs <= MAX_SECS
        &&& self.nanos < NANOS_PER_SEC
    }

    /// `wf` spelled out over the two parts.
    pub proof fn lemma_wf(self)
        ensures
            self.wf() <==> (MIN_SECS <= self.secs() <= MAX_SECS && 0 <= self.nanos()
                < NANOS_PER_SEC),
    {
    }

    /// The instant `secs` seconds and `nanos` nanoseconds after the epoch, if
    /// it is in range.
    pub fn new(secs: i64, nanos: u32) -> (r: Option<Timestamp>)
        ensures
            r is Some <==> (MIN_SECS <= secs <= MAX_SECS && nanos < NANOS_PER_SEC),
            r matches Some(t) ==> t.wf() && t.secs() == secs && t.nanos() == nanos,
    {
        if MIN_SECS <= secs && secs <= MAX_SECS && nanos < NANOS_PER_SEC {
            Some(Timestamp { secs, nanos })
        } else {
            None
        }
    }

    /// Whole seconds since the Unix epoch.
    pub fn seconds(&self) -> (r: i64)
        ensures
            r == self.secs(),
            MIN_SECS <= r <= MAX_SECS,
    {
        proof {
            use_type_invariant(self);
        }
        self.secs
    }

    /// Nanoseconds into the second.
    pub fn subsec_nanos(&self) -> (r: u32)
        ensures
            r == self.nanos(),
            r < NANOS_PER_SEC,
    {
        proof {
            use_type_invariant(self);
        }
        self.nanos
    }
}

/// `a / b` rounded towards zero, as Rust divides signed integers.
pub open spec fn truncated(a: int, b: int) -> int {
    if a >= 0 {
        a / b
    } else {
        -((-a) / b)
    }
}

/// The whole seconds from `earlier` to `later`, rounded towards zero;
/// negative when `later` is the earlier one.
pub open spec fn seconds_between(later: Timestamp, earlier: Timestamp) -> int {
    truncated(
        (later.secs() - earlier.secs()) * (NANOS_PER_SEC as int) + later.nanos() - earlier.nanos(),
        NANOS_PER_SEC as int,
    )
}

/// Whole minutes in a span of `secs` seconds.
pub open spec fn minutes_in(secs: int) -> int {
    truncated(secs, 60)
}

/// Whole hours in a span of `secs` seconds.
pub open spec fn hours_in(secs: int) -> int {
    truncated(secs, 3600)
}

/// Whole days in a span of `secs` seconds.
pub open spec fn days_in(secs: int) -> int {
    truncated(secs, 86_400)
}

/// Whole weeks in a span of `secs` seconds: the whole days, divided by seven.
pub open spec fn weeks_in(secs: int) -> int {
    truncated(days_in(secs), 7)
}

/// The current instant, read from `chrono::Utc::now`.
///
/// Nothing is claimed of which instant it is. `Utc::now` builds its answer
/// from a count of seconds and a count of nanoseconds below one second, and
/// fails rather than answer outside the range of `chrono`: so what comes
/// back is in range.
#[verifier::external_body]
pub(crate) fn now() -> (t: Timestamp)
    ensures
        t.wf(),
{
    let t = chrono::Utc::now();
    Timestamp { secs: t.timestamp(), nanos: t.timestamp_subsec_nanos() }
}

/// `chrono::DateTime::signed_duration_since`, taken in whole seconds
/// (`Duration::num_seconds`).
///
/// For two instants that name no leap second, `chrono` subtracts the exact
/// times with nanosecond precision, and `num_seconds` rounds the difference
/// towards zero.
#[verifier::external_body]
fn whole_seconds_between(later: Timestamp, earlier: Timestamp) -> (secs: i64)
    requires
        later.wf(),
        earlier.wf(),
    ensures
        secs == seconds_between(later, earlier),
{
    let a = chrono::DateTime::from_timestamp(later.secs, later.nanos).unwrap();
    let b = chrono::DateTime::from_timestamp(earlier.secs, earlier.nanos).unwrap();
    a.signed_duration_since(b).num_seconds()
}

/// `chrono::Duration::num_weeks` of a span of `secs` whole seconds: the
/// whole days of the span, divided by seven, both rounded towards zero.
/// `Duration::seconds` accepts the spans that `requires` admits.
#[verifier::external_body]
fn whole_weeks(secs: i64) -> (weeks: i64)
    requires
        -MAX_SPAN <= secs <= MAX_SPAN,
    ensures
        weeks == weeks_in(secs as int),
{
    chrono::Duration::seconds(secs).num_weeks()
}

/// `chrono::Duration::num_days` of a span of `secs` whole seconds:
/// `secs / 86400`, rounded towards zero.
#[verifier::external_body]
fn whole_days(secs: i64) -> (days: i64)
    requires
        -MAX_SPAN <= secs <= MAX_SPAN,
    ensures
        days == days_in(secs as int),
{
    chrono::Duration::seconds(secs).num_days()
}

/// `chrono::Duration::num_hours` of a span of `secs` whole seconds:
/// `secs / 3600`, rounded towards zero.
#[verifier::external_body]
fn whole_hours(secs: i64) -> (hours: i64)
    requires
        -MAX_SPAN <= secs <= MAX_SPAN,
    ensures
        hours == hours_in(secs as int),
{
    chrono::Duration::seconds(secs).num_hours()
}

/// `chrono::Duration::num_minutes` of a span of `secs` whole seconds:
/// `secs / 60`, rounded towards zero.
#[verifier::external_body]
fn whole_minutes(secs: i64) -> (minutes: i64)
    requires
        -MAX_SPAN <= secs <= MAX_SPAN,
    ensures
        minutes == minutes_in(secs as int),
{
    chrono::Duration::seconds(secs).num_minutes()
}

/// A span of time as `chrono::Duration` counts it: in whole weeks, days,
/// hours and minutes, each taken of the whole span.
#[derive(Clone, Copy, Debug, PartialEq, Eq, Structural)]
pub struct Elapsed {
    pub weeks: i64,
    pub days: i64,
    pub hours: i64,
    pub minutes: i64,
}

/// The time from `earlier` to `later`.
pub fn elapsed(later: Timestamp, earlier: Timestamp) -> (e: Elapsed)
    ensures
        e.weeks == weeks_in(seconds_between(later, earlier)),
        e.days == days_in(seconds_between(later, earlier)),
        e.hours == hours_in(seconds_between(later, earlier)),
        e.minutes == minutes_in(seconds_between(later, earlier)),
{
    proof {
        use_type_invariant(later);
        use_type_invariant(earlier);
    }
    let secs: i64 = whole_seconds_between(later, earlier);
    Elapsed {
        weeks: whole_weeks(secs),
        days: whole_days(secs),
        hours: whole_hours(secs),
        minutes: whole_minutes(secs),
    }
}

} // verus!
