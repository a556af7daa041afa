//! Instants as nanoseconds since the Unix epoch (UTC), and the calendar facts the logic needs.
use vstd::prelude::*;

verus! {

/// An instant: nanoseconds since 1970-01-01T00:00:00Z.
pub type Timestamp = i64;

/// Nanoseconds in one second.
pub const NANOS_PER_SECOND: i64 = 1_000_000_000;

/// Nanoseconds in one minute.
pub const NANOS_PER_MINUTE: i64 = 60_000_000_000;

/// Nanoseconds in one hour.
pub const NANOS_PER_HOUR: i64 = 3_600_000_000_000;

/// Nanoseconds in one day.
pub const NANOS_PER_DAY: i64 = 86_400_000_000_000;

/// Nanoseconds in one week.
pub const NANOS_PER_WEEK: i64 = 604_800_000_000_000;

/// The UTC calendar day of an instant, counted in days since the epoch.
pub open spec fn utc_day(t: int) -> int {
    t / (NANOS_PER_DAY as int)
}

/// The UTC calendar day of an instant (floor division, so instants before the epoch
/// fall on negative days).
pub fn utc_day_of(t: Timestamp) -> (d: i64)
    ensures
        d == utc_day(t as int),
{
    if t >= 0 {
        t / NANOS_PER_DAY
    } else {
        let m: i64 = -(t + 1);
        let q = m / NANOS_PER_DAY;
        assert((t as int) / (NANOS_PER_DAY as int) == -(q as int) - 1) by {
            assert(m as int == -(t as int) - 1);
            assert(m as int == (q as int) * (NANOS_PER_DAY as int) + (m as int) % (
            NANOS_PER_DAY as int));
        }
        -q - 1
    }
}

/// Whether two instants fall on the same UTC calendar day.
pub fn same_utc_day(a: Timestamp, b: Timestamp) -> (r: bool)
    ensures
        r == (utc_day(a as int) == utc_day(b as int)),
{
    utc_day_of(a) == utc_day_of(b)
}

/// The instant an RFC 3339 date-time text names, in nanoseconds since the epoch, as chrono
/// reads it; `None` when chrono refuses the text or the instant leaves the `i64` range.
pub uninterp spec fn rfc3339_instant(s: Seq<char>) -> Option<i64>;

/// `chrono::DateTime::parse_from_rfc3339` followed by `timestamp_nanos_opt`. The contract
/// claims only that the result is a function of the text.
#[verifier::external_body]
pub(crate) fn parse_rfc3339(s: &str) -> (r: Option<Timestamp>)
    ensures
        r == rfc3339_instant(s@),
{
    match chrono::DateTime::parse_from_rfc3339(s) {
        Ok(d) => d.timestamp_nanos_opt(),
        Err(_) => None,
    }
}

/// The RFC 3339 text chrono writes for an instant in UTC with nanoseconds and a `Z` suffix.
pub uninterp spec fn rfc3339_nanos_text(t: i64) -> Seq<char>;

/// `chrono::DateTime::from_timestamp_nanos(t).to_rfc3339_opts(SecondsFormat::Nanos, true)`.
/// Besides naming the text, the contract claims that it holds no `|` (it is made of digits,
/// `-`, `:`, `.`, `T`, `Z` and a leading `+` for years past 9999) and that chrono reads it back
/// as the same instant.
#[verifier::external_body]
pub(crate) fn format_rfc3339_nanos(t: Timestamp) -> (s: String)
    ensures
        s@ == rfc3339_nanos_text(t),
        !s@.contains('|'),
        rfc3339_instant(s@) == Some(t),
{
    chrono::DateTime::from_timestamp_nanos(t).to_rfc3339_opts(chrono::SecondsFormat::Nanos, true)
}

} // verus!
