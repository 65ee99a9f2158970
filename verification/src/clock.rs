//! Points in time, read from the system clock with `chrono`.
use vstd::prelude::*;

verus! {

/// A point in UTC time: whole seconds since the Unix epoch and the
/// nanoseconds past that second (as `chrono` reports them).
#[derive(Clone, Copy, Debug, PartialEq, Eq, Structural)]
pub struct Timestamp {
    pub secs: i64,
    pub nanos: u32,
}

/// The RFC 3339 text that `chrono` writes for the UTC instant `secs`
/// seconds and `nanos` nanoseconds after 1970 (`DateTime::from_timestamp`,
/// then `DateTime::to_rfc3339`), or `None` when `chrono` cannot represent
/// that instant.
pub uninterp spec fn rfc3339_text(secs: i64, nanos: u32) -> Option<Seq<char>>;

/// The current time: the system clock read with `SystemTime::now` and
/// turned into a `chrono` UTC time with `DateTime::<Utc>::from`, which also
/// takes times before 1970 (unlike `Utc::now`, which panics on them).  The
/// conversion panics only for a clock more than about 262,000 years away
/// from 1970, beyond what `chrono` represents, which no system clock holds.
///
/// Claimed of `chrono`: the instant read is one it represents, so it can be
/// written as RFC 3339 text.  Nothing is claimed of the value itself.
#[verifier::external_body]
pub(crate) fn now() -> (r: Timestamp)
    ensures
        rfc3339_text(r.secs, r.nanos) is Some,
{
    let t = chrono::DateTime::<chrono::Utc>::from(std::time::SystemTime::now());
    Timestamp { secs: t.timestamp(), nanos: t.timestamp_subsec_nanos() }
}

/// The RFC 3339 text of the instant `t`, with `DateTime::from_timestamp`
/// and `DateTime::to_rfc3339` (writing into a `String` cannot fail).
///
/// Claimed of `chrono`: the text depends on `t` alone.
#[verifier::external_body]
fn rfc3339(t: Timestamp) -> (r: Option<String>)
    ensures
        r is Some <==> rfc3339_text(t.secs, t.nanos) is Some,
        r matches Some(s) ==> rfc3339_text(t.secs, t.nanos) == Some(s@),
{
    match chrono::DateTime::from_timestamp(t.secs, t.nanos) {
        Some(d) => Some(d.to_rfc3339()),
        None => None,
    }
}

/// The current time as RFC 3339 text.
pub fn now_rfc3339() -> (r: String)
    ensures
        exists|t: Timestamp| rfc3339_text(t.secs, t.nanos) == Some(r@),
{
    let t = now();
    match rfc3339(t) {
        Some(s) => s,
        None => {
            assert(false);
            String::new()
        },
    }
}

/// Nanoseconds in a second.
pub const NANOS_PER_SEC: i128 = 1_000_000_000;

/// The time from `earlier` to `later` in nanoseconds.
pub open spec fn nanos_between(later: Timestamp, earlier: Timestamp) -> int {
    (later.secs - earlier.secs) * 1_000_000_000 + (later.nanos - earlier.nanos)
}

/// The whole seconds from `earlier` to `later`, rounded toward zero (as
/// `TimeDelta::num_seconds` counts them).
pub open spec fn seconds_between(later: Timestamp, earlier: Timestamp) -> int {
    let d = nanos_between(later, earlier);
    if d >= 0 {
        d / 1_000_000_000
    } else {
        -((-d) / 1_000_000_000)
    }
}

/// The whole seconds from `earlier` to `later`, rounded toward zero.
pub fn elapsed_seconds(later: Timestamp, earlier: Timestamp) -> (r: i128)
    ensures
        r == seconds_between(later, earlier),
{
    let d: i128 = (later.secs as i128 - earlier.secs as i128) * NANOS_PER_SEC + (later.nanos as i128
        - earlier.nanos as i128);
    if d >= 0 {
        d / NANOS_PER_SEC
    } else {
        -((-d) / NANOS_PER_SEC)
    }
}

} // verus!
