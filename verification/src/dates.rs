//! Date handling: RFC-2822 parsing, supplied by the `chrono` crate behind
//! a trusted declaration, the wall clock read through std, and the
//! unix-millisecond values derived from them.

use vstd::prelude::*;

verus! {

/// A bound on the magnitude, in seconds, of any unix timestamp that
/// chrono's date-time types can represent: their year range is about
/// ±262000 around the common era, roughly 8.3e12 seconds from the epoch.
pub const MAX_EPOCH_SECONDS: i64 = 10_000_000_000_000;

/// The unix-epoch second that an RFC-2822 date string denotes, when it
/// parses as one. The same string always denotes the same second.
pub uninterp spec fn rfc2822_seconds_of(s: Seq<char>) -> Option<i64>;

/// Relies on chrono's `DateTime::parse_from_rfc2822` and `timestamp`: the
/// result is a function of the characters alone, and any timestamp chrono
/// yields lies within its representable year range, far inside
/// `MAX_EPOCH_SECONDS`.
#[verifier::external_body]
pub fn parse_rfc2822_seconds(s: &str) -> (r: Option<i64>)
    ensures
        r == rfc2822_seconds_of(s@),
        r matches Some(t) ==> -MAX_EPOCH_SECONDS <= t <= MAX_EPOCH_SECONDS,
{
    chrono::DateTime::parse_from_rfc2822(s).ok().map(|dt| dt.timestamp())
}

/// Relies on std's `SystemTime::now` and `duration_since`: the whole
/// seconds since the unix epoch, or `None` when the system clock stands
/// before it. Every clock state returns; nothing else is promised of the
/// value.
#[verifier::external_body]
fn system_epoch_seconds() -> (r: Option<u64>)
{
    std::time::SystemTime::now()
        .duration_since(std::time::UNIX_EPOCH)
        .ok()
        .map(|d| d.as_secs())
}

/// The wall clock as a unix second, clamped into the range the date
/// arithmetic is proved for: a clock before the epoch reads as zero, and
/// one beyond the representable date range as the bound itself.
pub fn now_unix_seconds() -> (r: i64)
    ensures
        0 <= r <= MAX_EPOCH_SECONDS,
{
    match system_epoch_seconds() {
        Some(s) => {
            if s > MAX_EPOCH_SECONDS as u64 {
                MAX_EPOCH_SECONDS
            } else {
                s as i64
            }
        },
        None => 0,
    }
}

/// The unix-epoch second taken from an optional date string: its RFC-2822
/// reading when that succeeds, the fallback second otherwise.
pub open spec fn date_seconds(d: Option<Seq<char>>, now_secs: int) -> int {
    match d {
        Some(s) => match rfc2822_seconds_of(s) {
            Some(t) => t as int,
            None => now_secs,
        },
        None => now_secs,
    }
}

/// The unix-millisecond timestamp derived from an optional date string,
/// falling back to the given second when the date is absent or unparsable.
pub open spec fn date_millis(d: Option<Seq<char>>, now_secs: int) -> int {
    date_seconds(d, now_secs) * 1000
}

/// Parses the date and resolves it to unix-epoch seconds, falling back to
/// `now_secs`.
pub fn resolve_date_seconds(d: &Option<String>, now_secs: i64) -> (r: i64)
    requires
        -MAX_EPOCH_SECONDS <= now_secs <= MAX_EPOCH_SECONDS,
    ensures
        r as int == date_seconds(d.deep_view(), now_secs as int),
        -MAX_EPOCH_SECONDS <= r <= MAX_EPOCH_SECONDS,
{
    match d {
        Some(s) => match parse_rfc2822_seconds(s.as_str()) {
            Some(t) => t,
            None => now_secs,
        },
        None => now_secs,
    }
}

} // verus!
