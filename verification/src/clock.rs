//! The wall clock, read through `chrono`, and the instants it gives.
use vstd::prelude::*;

verus! {

/// An instant as `chrono` holds one: whole seconds since the Unix epoch
/// (`DateTime::timestamp`) and the nanoseconds past that second
/// (`DateTime::timestamp_subsec_nanos`).
#[derive(Clone, Copy, Debug, PartialEq, Eq, Structural)]
pub struct Timestamp {
    pub secs: i64,
    pub subsec_nanos: u32,
}

/// `a` comes after `b`: by second, then by nanosecond, the order in which
/// `chrono` compares instants.
pub open spec fn later(a: Timestamp, b: Timestamp) -> bool {
    a.secs > b.secs || (a.secs == b.secs && a.subsec_nanos > b.subsec_nanos)
}

/// Whether `a` comes after `b`.
pub fn is_later(a: Timestamp, b: Timestamp) -> (r: bool)
    ensures
        r == later(a, b),
{
    a.secs > b.secs || (a.secs == b.secs && a.subsec_nanos > b.subsec_nanos)
}

/// One second, in nanoseconds.
pub const NANOS_PER_SEC: i128 = 1_000_000_000;

/// The instant in nanoseconds since the Unix epoch.
pub open spec fn nanos_of(t: Timestamp) -> int {
    t.secs * NANOS_PER_SEC + t.subsec_nanos
}

/// The instant in nanoseconds since the Unix epoch.
pub fn to_nanos(t: Timestamp) -> (r: i128)
    ensures
        r == nanos_of(t),
{
    let s = t.secs as i128;
    assert(-0x8000_0000_0000_0000 * 1_000_000_000 <= s * 1_000_000_000 <= 0x7fff_ffff_ffff_ffff * 1_000_000_000)
        by (nonlinear_arith)
        requires
            -0x8000_0000_0000_0000 <= s <= 0x7fff_ffff_ffff_ffff,
    ;
    s * NANOS_PER_SEC + t.subsec_nanos as i128
}

/// The whole seconds from `then` to `now`, rounded toward zero, as
/// `chrono`'s `signed_duration_since(..).num_seconds()` gives them.
pub open spec fn whole_seconds_between(now: Timestamp, then: Timestamp) -> int {
    let d = nanos_of(now) - nanos_of(then);
    if d >= 0 {
        d / (NANOS_PER_SEC as int)
    } else {
        -((-d) / (NANOS_PER_SEC as int))
    }
}

/// The whole seconds from `then` to `now`, rounded toward zero.
pub fn seconds_between(now: Timestamp, then: Timestamp) -> (r: i128)
    ensures
        r == whole_seconds_between(now, then),
{
    let a = to_nanos(now);
    let b = to_nanos(then);
    if a >= b {
        let d = (a - b) as u128;
        (d / 1_000_000_000) as i128
    } else {
        let d = (b - a) as u128;
        -((d / 1_000_000_000) as i128)
    }
}

/// The timestamps, in whole seconds, of the first and the last instant that
/// `chrono` can represent: midnight at the start of January 1 of year
/// -262143 and the last second of December 31 of year 262142 (its
/// `MIN_YEAR` and `MAX_YEAR`).
pub open spec fn timestamp_in_chrono_range(ts: i64) -> bool {
    -8_334_601_228_800 <= ts <= 8_210_266_876_799
}

/// `chrono::Utc.timestamp_opt(ts, 0).single().is_some()`: whether the instant
/// `ts` seconds after the epoch lies within the range that `chrono`
/// represents, from the start of its first day to the end of its last.
#[verifier::external_body]
pub(crate) fn timestamp_representable(ts: i64) -> (r: bool)
    ensures
        r == timestamp_in_chrono_range(ts),
{
    chrono::TimeZone::timestamp_opt(&chrono::Utc, ts, 0).single().is_some()
}

/// The current time: `DateTime::<Utc>::from(SystemTime::now())`, which also
/// takes a clock set before 1970, split into its timestamp and the
/// nanoseconds past it. Which instant it is depends on the clock and is left
/// unsaid; what is claimed is that `chrono` made it, so it lies within
/// `chrono`'s range, and that it is no leap second, so the nanoseconds stay
/// below one second.
#[verifier::external_body]
pub(crate) fn now_utc() -> (r: Timestamp)
    ensures
        timestamp_in_chrono_range(r.secs),
        r.subsec_nanos < 1_000_000_000,
{
    let t = chrono::DateTime::<chrono::Utc>::from(std::time::SystemTime::now());
    Timestamp { secs: t.timestamp(), subsec_nanos: t.timestamp_subsec_nanos() }
}

/// The current time in whole seconds since the Unix epoch.
pub fn now_timestamp() -> (r: i64)
    ensures
        timestamp_in_chrono_range(r),
{
    now_utc().secs
}

/// The current time in nanoseconds since the Unix epoch.
pub fn now_nanos() -> (r: i128)
    ensures
        exists|t: Timestamp| timestamp_in_chrono_range(t.secs) && r == #[trigger] nanos_of(t),
{
    to_nanos(now_utc())
}

/// The whole seconds from `then` to now, by the clock, rounded toward zero.
pub fn seconds_since(then: Timestamp) -> (r: i128)
    ensures
        exists|now: Timestamp| r == #[trigger] whole_seconds_between(now, then),
{
    seconds_between(now_utc(), then)
}

} // verus!
