//! Wall-clock time in UTC: whole seconds since the Unix epoch and the
//! nanoseconds within the second, and its RFC 3339 text (written and read
//! by chrono).

use vstd::prelude::*;

use chrono::{DateTime, Utc};

verus! {

/// An instant of UTC time.
#[derive(Debug, Clone, Copy, PartialEq, Eq)]
pub struct UtcTime {
    /// Seconds since 1970-01-01T00:00:00Z
    pub secs: i64,
    /// Nanoseconds past `secs` (at least 10^9 only within a leap second)
    pub nanos: u32,
}

/// `Utc::now()`, read as `timestamp()` and `timestamp_subsec_nanos()`: the
/// current wall-clock time. Nothing is stated of it.
#[verifier::external_body]
pub(crate) fn utc_now() -> UtcTime {
    let now = Utc::now();
    UtcTime { secs: now.timestamp(), nanos: now.timestamp_subsec_nanos() }
}

/// Whether chrono can represent the UTC instant `secs` seconds and `nanos`
/// nanoseconds after the epoch.
pub uninterp spec fn utc_representable(secs: i64, nanos: u32) -> bool;

/// What chrono's `to_rfc3339` writes for that instant.
pub uninterp spec fn rfc3339_text(secs: i64, nanos: u32) -> Seq<char>;

/// The instant (whole seconds, nanoseconds) chrono reads from RFC 3339 text;
/// `None` where it refuses the text.
pub uninterp spec fn rfc3339_instant(s: Seq<char>) -> Option<(i64, u32)>;

/// `DateTime::<Utc>::from_timestamp(secs, nanos).is_some()`: whether the
/// instant is in chrono's range. A function of the two numbers; the epoch
/// itself is in range.
#[verifier::external_body]
fn representable(secs: i64, nanos: u32) -> (r: bool)
    ensures
        r == utc_representable(secs, nanos),
        secs == 0 && nanos == 0 ==> r,
{
    DateTime::<Utc>::from_timestamp(secs, nanos).is_some()
}

/// `DateTime::<Utc>::from_timestamp(secs, nanos)` written by `to_rfc3339`,
/// for an instant in range. The text is a function of the two numbers;
/// nothing more is stated of it.
#[verifier::external_body]
fn write_rfc3339(secs: i64, nanos: u32) -> (r: String)
    requires
        utc_representable(secs, nanos),
    ensures
        r@ == rfc3339_text(secs, nanos),
{
    DateTime::<Utc>::from_timestamp(secs, nanos).unwrap_or_default().to_rfc3339()
}

/// `DateTime::parse_from_rfc3339`, read as `timestamp()` and
/// `timestamp_subsec_nanos()` (both in UTC). A function of the text;
/// nothing more is stated of it.
#[verifier::external_body]
fn parse_rfc3339(text: &str) -> (r: Option<(i64, u32)>)
    ensures
        r == rfc3339_instant(text@),
{
    match DateTime::parse_from_rfc3339(text) {
        Ok(dt) => Some((dt.timestamp(), dt.timestamp_subsec_nanos())),
        Err(_) => None,
    }
}

impl UtcTime {
    /// The RFC 3339 text of this time; the epoch's text for a time out of
    /// chrono's range.
    pub fn to_rfc3339(&self) -> (r: String)
        ensures
            utc_representable(self.secs, self.nanos) ==> r@ == rfc3339_text(self.secs, self.nanos),
            !utc_representable(self.secs, self.nanos) ==> r@ == rfc3339_text(0, 0),
    {
        if representable(self.secs, self.nanos) {
            write_rfc3339(self.secs, self.nanos)
        } else {
            let epoch_in_range = representable(0, 0);
            assert(epoch_in_range);
            write_rfc3339(0, 0)
        }
    }

    /// The time RFC 3339 text stands for; the current time where the text
    /// cannot be read.
    pub fn from_rfc3339(text: &str) -> (r: UtcTime)
        ensures
            rfc3339_instant(text@) matches Some(p) ==> r == (UtcTime { secs: p.0, nanos: p.1 }),
    {
        match parse_rfc3339(text) {
            Some((secs, nanos)) => UtcTime { secs, nanos },
            None => utc_now(),
        }
    }
}

} // verus!
