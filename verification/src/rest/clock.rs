//! The time of day, and how points in time are written.

use vstd::prelude::*;
use std::fmt::Write;
use crate::text::text_of;

verus! {

/// `SystemTime` of std, a reading of the system clock. It is only carried
/// from one call to the next; nothing is known of what it holds.
#[verifier::external_type_specification]
#[verifier::external_body]
pub struct ExSystemTime(std::time::SystemTime);

/// `SystemTime::now` of std: what the system clock reads. Nothing is known
/// of the result.
#[verifier::external_body]
fn system_now() -> (now: std::time::SystemTime) {
    std::time::SystemTime::now()
}

/// `SystemTime::duration_since` of std, taken from the Unix epoch, in whole
/// seconds; `None` where the time lies before the epoch.
#[verifier::external_body]
fn seconds_since_epoch(at: &std::time::SystemTime) -> (seconds: Option<u64>) {
    at.duration_since(std::time::UNIX_EPOCH).ok().map(|elapsed| elapsed.as_secs())
}

/// `DateTime::from_timestamp(seconds, 0)` of the `chrono` crate, then
/// `timestamp()` on the date: the same number of seconds, where the crate
/// has a date for it, which its documentation promises of the round trip;
/// `None` where it has none.
#[verifier::external_body]
fn dated(seconds: i64) -> (timestamp: Option<i64>)
    ensures
        match timestamp {
            Some(t) => t == seconds,
            None => true,
        },
{
    chrono::DateTime::from_timestamp(seconds, 0).map(|date| date.timestamp())
}

/// The present moment in seconds since the Unix epoch; `None` where the
/// system clock reads a time before 1970 or one that has no date.
pub fn current_timestamp() -> (now: Option<i64>)
    ensures
        match now {
            Some(t) => 0 <= t,
            None => true,
        },
{
    let seconds = seconds_since_epoch(&system_now())?;
    if seconds > i64::MAX as u64 {
        return None;
    }
    dated(seconds as i64)
}

/// The point in time `timestamp` seconds after the Unix epoch, in UTC,
/// written by the `chrono` crate after a `strftime` pattern; `None` where
/// the crate has no date for the timestamp or cannot write it so.
pub uninterp spec fn formatted_time(timestamp: int, pattern: Seq<char>) -> Option<Seq<char>>;

/// `DateTime::from_timestamp(timestamp, 0)` of the `chrono` crate, then
/// `format(pattern)` on the date, written into a string. `None` where
/// `from_timestamp` gives no date or writing fails; neither panics. The
/// result depends on the two arguments alone: the date is in UTC and
/// `format` uses no locale.
#[verifier::external_body]
pub(crate) fn format_timestamp(timestamp: i64, pattern: &str) -> (text: Option<String>)
    ensures
        text_of(text) == formatted_time(timestamp as int, pattern@),
{
    let time = chrono::DateTime::from_timestamp(timestamp, 0)?;
    let mut text = String::new();
    write!(text, "{}", time.format(pattern)).ok()?;
    Some(text)
}

/// The point in time `timestamp` seconds after the Unix epoch, in UTC,
/// written by the `chrono` crate as RFC 2822 has it (`Tue, 1 Jul 2003
/// 10:52:37 +0000`); `None` where the crate has no date for the timestamp
/// or the year does not fit the format.
pub uninterp spec fn rfc2822_time(timestamp: int) -> Option<Seq<char>>;

/// `DateTime::from_timestamp(timestamp, 0)` of the `chrono` crate, then
/// `format_with_items` with the one item `Fixed::RFC2822`, written into a
/// string. `None` where `from_timestamp` gives no date or writing fails, as
/// it does for years outside 0 to 9999; neither panics.
#[verifier::external_body]
pub(crate) fn format_rfc2822(timestamp: i64) -> (text: Option<String>)
    ensures
        text_of(text) == rfc2822_time(timestamp as int),
{
    let time = chrono::DateTime::from_timestamp(timestamp, 0)?;
    let items = [chrono::format::Item::Fixed(chrono::format::Fixed::RFC2822)];
    let mut text = String::new();
    write!(text, "{}", time.format_with_items(items.iter())).ok()?;
    Some(text)
}

/// How long a session cookie is kept: two weeks, in seconds.
pub const COOKIE_LIFETIME: i64 = 1_209_600;

/// The `Expires` field of a cookie set at `now`: two weeks later, in the
/// format of RFC 2822.
pub open spec fn expires_text(now: int) -> Option<Seq<char>> {
    if now + COOKIE_LIFETIME <= i64::MAX {
        rfc2822_time(now + COOKIE_LIFETIME)
    } else {
        None
    }
}

/// Formats the given time plus two weeks into a cookie expires field.
pub fn expires_string_at(now: i64) -> (expires: Option<String>)
    ensures
        text_of(expires) == expires_text(now as int),
{
    match now.checked_add(COOKIE_LIFETIME) {
        Some(later) => format_rfc2822(later),
        None => None,
    }
}

/// Formats the current time plus two weeks into a cookie expires field;
/// `None` where the clock gives no time or the time cannot be written.
pub fn get_expires_string() -> (expires: Option<String>)
    ensures
        match expires {
            Some(text) => exists|now: int|
                0 <= now <= i64::MAX && #[trigger] expires_text(now) == Some(text@),
            None => true,
        },
{
    let now = current_timestamp()?;
    let expires = expires_string_at(now);
    assert(text_of(expires) == expires_text(now as int));
    expires
}

} // verus!
