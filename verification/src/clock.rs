//! Instants read from date-time texts, and expiry against the present.

use vstd::prelude::*;

verus! {

/// The instant an RFC 3339 text names, as `chrono::DateTime::parse_from_rfc3339`
/// reads it: seconds since 1970-01-01T00:00:00Z and the nanoseconds within
/// the second; `None` when the text is not RFC 3339.
pub uninterp spec fn rfc3339_instant(s: Seq<char>) -> Option<(i64, u32)>;

/// The instant a text names when read with a `chrono` format and no time
/// zone (taken as UTC), as `chrono::NaiveDateTime::parse_from_str` reads it;
/// `None` when the text does not fit the format.
pub uninterp spec fn naive_instant(s: Seq<char>, fmt: Seq<char>) -> Option<(i64, u32)>;

/// `chrono::DateTime::parse_from_rfc3339`, the instant taken as seconds and
/// nanoseconds. Claimed: the result is the named function of the text.
#[verifier::external_body]
pub(crate) fn parse_rfc3339(s: &str) -> (r: Option<(i64, u32)>)
    ensures
        r == rfc3339_instant(s@),
{
    match chrono::DateTime::parse_from_rfc3339(s) {
        Ok(t) => Some((t.timestamp(), t.timestamp_subsec_nanos())),
        Err(_) => None,
    }
}

/// `chrono::NaiveDateTime::parse_from_str`, the date-time taken in UTC as
/// seconds and nanoseconds. Claimed: the result is the named function of
/// the text and the format.
#[verifier::external_body]
fn parse_naive(s: &str, fmt: &str) -> (r: Option<(i64, u32)>)
    ensures
        r == naive_instant(s@, fmt@),
{
    match chrono::NaiveDateTime::parse_from_str(s, fmt) {
        Ok(t) => {
            let u = t.and_utc();
            Some((u.timestamp(), u.timestamp_subsec_nanos()))
        },
        Err(_) => None,
    }
}

/// `chrono::Utc::now`, as seconds and nanoseconds. Of the time of the call
/// only a range is claimed: the seconds lie within 8.3e12 of the epoch
/// (`chrono`'s dates run from 262145 BCE to 262143 CE, a little less), and
/// the nanoseconds stay below two seconds (a leap second). `now`
/// builds its value with `DateTime::from_timestamp`, which `chrono` documents
/// to give the same value back from `timestamp` and `timestamp_subsec_nanos`,
/// so the instant is one that `format_utc` writes.
#[verifier::external_body]
pub(crate) fn current_time() -> (r: (i64, u32))
    ensures
        -8_300_000_000_000 <= r.0 <= 8_300_000_000_000,
        r.1 < 2_000_000_000,
        utc_formatted(r.0, r.1, "%Y-%m-%dT%H:%M:%SZ"@) is Some,
{
    let t = chrono::Utc::now();
    (t.timestamp(), t.timestamp_subsec_nanos())
}

/// The UTC date-time of an instant written with a `chrono` format; `None`
/// when the instant is out of `chrono`'s range.
pub uninterp spec fn utc_formatted(secs: i64, nanos: u32, fmt: Seq<char>) -> Option<Seq<char>>;

/// `chrono::DateTime::<Utc>::from_timestamp`, then `format(..).to_string()`.
/// Claimed: the text is the named function of the instant and the format.
/// Only the format `%Y-%m-%dT%H:%M:%SZ`, which `chrono` knows, is admitted:
/// with a format it does not know, the formatting panics.
#[verifier::external_body]
pub(crate) fn format_utc(secs: i64, nanos: u32, fmt: &str) -> (r: Option<String>)
    requires
        fmt@ == "%Y-%m-%dT%H:%M:%SZ"@,
    ensures
        match r {
            Some(t) => utc_formatted(secs, nanos, fmt@) == Some(t@),
            None => utc_formatted(secs, nanos, fmt@) is None,
        },
{
    chrono::DateTime::<chrono::Utc>::from_timestamp(secs, nanos).map(|t| t.format(fmt).to_string())
}

/// `chrono::Utc::now().timestamp_millis()`. Nothing is claimed of the
/// result: it is the time of the call.
#[verifier::external_body]
pub(crate) fn current_millis() -> (r: i64) {
    chrono::Utc::now().timestamp_millis()
}

/// The RFC 3339 text of an instant in UTC, as `chrono` writes it; `None`
/// when the instant is out of `chrono`'s range.
pub uninterp spec fn rfc3339_written(secs: i64, nanos: u32) -> Option<Seq<char>>;

/// `chrono::DateTime::<Utc>::from_timestamp`, then `to_rfc3339`. Claimed: the
/// text is the named function of the instant.
#[verifier::external_body]
pub(crate) fn rfc3339_text(secs: i64, nanos: u32) -> (r: Option<String>)
    ensures
        match r {
            Some(t) => rfc3339_written(secs, nanos) == Some(t@),
            None => rfc3339_written(secs, nanos) is None,
        },
{
    chrono::DateTime::<chrono::Utc>::from_timestamp(secs, nanos).map(|t| t.to_rfc3339())
}

/// `a` is strictly earlier than `b`.
pub open spec fn before(a: (i64, u32), b: (i64, u32)) -> bool {
    a.0 < b.0 || (a.0 == b.0 && a.1 < b.1)
}

/// An expiry text has passed at `now`: read as RFC 3339, else as
/// `%Y-%m-%dT%H:%M:%S`, else as `%Y-%m-%dT%H:%M` (both in UTC); a text
/// that none of them reads never expires.
pub open spec fn expired_at(expires: Seq<char>, now: (i64, u32)) -> bool {
    match rfc3339_instant(expires) {
        Some(t) => before(t, now),
        None => match naive_instant(expires, "%Y-%m-%dT%H:%M:%S"@) {
            Some(t) => before(t, now),
            None => match naive_instant(expires, "%Y-%m-%dT%H:%M"@) {
                Some(t) => before(t, now),
                None => false,
            },
        },
    }
}

/// Law: an expiry that has passed stays passed at every later instant.
pub proof fn lemma_expiry_stays_passed(expires: Seq<char>, then: (i64, u32), later: (i64, u32))
    requires
        expired_at(expires, then),
        !before(later, then),
    ensures
        expired_at(expires, later),
{
}

/// Whether the expiry `expires` has passed at `now`.
pub fn is_expired(expires: &str, now: (i64, u32)) -> (r: bool)
    ensures
        r == expired_at(expires@, now),
{
    let t = match parse_rfc3339(expires) {
        Some(t) => Some(t),
        None => match parse_naive(expires, "%Y-%m-%dT%H:%M:%S") {
            Some(t) => Some(t),
            None => parse_naive(expires, "%Y-%m-%dT%H:%M"),
        },
    };
    match t {
        Some(t) => t.0 < now.0 || (t.0 == now.0 && t.1 < now.1),
        None => false,
    }
}

/// Whether the expiry `expires` has passed now.
pub fn is_expired_now(expires: &str) -> (r: bool)
    ensures
        exists|now: (i64, u32)| r == expired_at(expires@, now),
{
    let now = current_time();
    is_expired(expires, now)
}

} // verus!
