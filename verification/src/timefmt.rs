//! The two time strings a rendered record card carries: a human-readable
//! age ("a minute ago") and an RFC 2822 timestamp.

use vstd::prelude::*;

verus! {

/// Widest timestamp difference, in seconds, that the human-readable
/// formatter accepts.
pub const HUMANIZE_BOUND: i64 = 9_000_000_000_000_000;

/// First second of the year 10000: timestamps from here on have no RFC 2822
/// form.
pub const RFC2822_HORIZON: u64 = 253_402_300_800;

/// The English human-readable text for a difference of this many seconds,
/// as chrono-humanize's formatter produces it.
pub uninterp spec fn human_time_of(delta_secs: i64) -> Seq<char>;

/// The RFC 2822 text of this UTC timestamp, as chrono's formatter produces
/// it.
pub uninterp spec fn rfc2822_of(secs: i64) -> Seq<char>;

/// Relies on chrono's Duration::seconds, which accepts any magnitude up to
/// i64::MAX / 1000 seconds, and on chrono-humanize's HumanTime display,
/// whose English text depends on the duration alone.
#[verifier::external_body]
fn humanize_seconds(delta_secs: i64) -> (r: String)
    requires
        -HUMANIZE_BOUND <= delta_secs <= HUMANIZE_BOUND,
    ensures
        r@ == human_time_of(delta_secs),
{
    let duration = chrono::Duration::seconds(delta_secs);
    let human = chrono_humanize::HumanTime::from(duration);
    format!("{}", human)
}

/// Relies on chrono's DateTime::from_timestamp, which succeeds for every
/// second between the epoch and the year 10000, and DateTime::to_rfc2822,
/// whose text depends on the UTC timestamp alone.
#[verifier::external_body]
fn rfc2822_utc(secs: i64) -> (r: String)
    requires
        0 <= secs < RFC2822_HORIZON,
    ensures
        r@ == rfc2822_of(secs),
{
    match chrono::DateTime::<chrono::Utc>::from_timestamp(secs, 0) {
        Some(dt) => dt.to_rfc2822(),
        None => String::new(),
    }
}

/// The human-readable age of a record whose timestamp is `timestamp`, seen
/// at time `now`; `None` when the values are too far apart for the
/// formatter.
pub fn human_time(timestamp: u64, now: u64) -> (r: Option<String>)
    ensures
        r matches Some(s) ==> timestamp <= i64::MAX && now <= i64::MAX && s@ == human_time_of(
            (timestamp - now) as i64,
        ),
        (timestamp <= i64::MAX && now <= i64::MAX && -HUMANIZE_BOUND <= timestamp - now
            <= HUMANIZE_BOUND) ==> r is Some,
{
    if timestamp > i64::MAX as u64 || now > i64::MAX as u64 {
        return None;
    }
    let delta = timestamp as i64 - now as i64;
    if delta < -HUMANIZE_BOUND || delta > HUMANIZE_BOUND {
        return None;
    }
    Some(humanize_seconds(delta))
}

/// The RFC 2822 form of a record's timestamp; `None` from the year 10000
/// on, where RFC 2822 has no representation.
pub fn iso_time(timestamp: u64) -> (r: Option<String>)
    ensures
        r matches Some(s) ==> s@ == rfc2822_of(timestamp as i64),
        timestamp < RFC2822_HORIZON ==> r is Some,
{
    if timestamp < RFC2822_HORIZON {
        Some(rfc2822_utc(timestamp as i64))
    } else {
        None
    }
}

} // verus!
