//! Wall-clock time and RFC 3339 timestamps, through `chrono`.

use vstd::prelude::*;

verus! {

/// The instant that an RFC 3339 text denotes, as whole seconds since the
/// Unix epoch and the nanoseconds past that second; `None` where
/// `chrono` does not accept the text.
pub uninterp spec fn rfc3339_instant(text: Seq<char>) -> Option<(int, int)>;

/// `DateTime::parse_from_rfc3339`, the parsed instant handed out as
/// `timestamp()` and `timestamp_subsec_nanos()`.
#[verifier::external_body]
pub(crate) fn parse_rfc3339(text: &str) -> (r: Option<(i64, u32)>)
    ensures
        match r {
            Some((seconds, nanos)) => rfc3339_instant(text@) == Some((seconds as int, nanos as int)),
            None => rfc3339_instant(text@) is None,
        },
{
    match chrono::DateTime::parse_from_rfc3339(text) {
        Ok(t) => Some((t.timestamp(), t.timestamp_subsec_nanos())),
        Err(_) => None,
    }
}

/// `DateTime::to_rfc3339` on the current time: the current time as text.
/// Nothing is promised of it.
#[verifier::external_body]
pub(crate) fn current_timestamp_rfc3339() -> (r: String)
{
    chrono::Utc::now().to_rfc3339()
}

/// `Utc::now()`, handed out as `timestamp()` and
/// `timestamp_subsec_nanos()`. Nothing is promised of it.
#[verifier::external_body]
pub(crate) fn current_instant() -> (r: (i64, u32))
{
    let now = chrono::Utc::now();
    (now.timestamp(), now.timestamp_subsec_nanos())
}

/// The whole milliseconds from the Unix epoch to an instant; zero for an
/// instant before the epoch, and no more than `u64::MAX`.
pub open spec fn millis_of(seconds: i64, nanos: u32) -> u64 {
    if seconds < 0 {
        0
    } else if seconds * 1000 + nanos / 1000000 > u64::MAX {
        u64::MAX
    } else {
        (seconds * 1000 + nanos / 1000000) as u64
    }
}

/// Milliseconds since the Unix epoch, now. The value is that of
/// `millis_of` for the current instant.
pub fn current_millis() -> (r: u64)
    ensures
        exists|seconds: i64, nanos: u32| r == #[trigger] millis_of(seconds, nanos),
{
    let (seconds, nanos) = current_instant();
    let r = to_millis(seconds, nanos);
    assert(r == millis_of(seconds, nanos));
    r
}

/// The whole milliseconds from the Unix epoch to an instant.
pub fn to_millis(seconds: i64, nanos: u32) -> (r: u64)
    ensures
        r == millis_of(seconds, nanos),
{
    if seconds < 0 {
        0
    } else {
        let total: u128 = seconds as u128 * 1000 + (nanos / 1000000) as u128;
        if total > u64::MAX as u128 {
            u64::MAX
        } else {
            total as u64
        }
    }
}

} // verus!
