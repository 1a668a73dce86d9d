//! Instants on the UTC time line, as whole seconds since the Unix epoch plus
//! nanoseconds. Parsing and range checks are done by `chrono`.

use vstd::prelude::*;

verus! {

/// An instant: seconds since 1970-01-01T00:00:00Z and the nanoseconds past
/// that second. Instants are ordered by `secs`, then by `nanos`.
#[derive(Clone, Copy, Debug, PartialEq, Eq, Structural, PartialOrd, Ord, Hash)]
pub struct Timestamp {
    pub secs: i64,
    pub nanos: u32,
}

/// The earliest second that `chrono` can represent: the first second of the
/// year -262143.
pub const MIN_SECONDS: i64 = -8_334_601_228_800;

/// The latest second that `chrono` can represent: the last second of the
/// year 262142.
pub const MAX_SECONDS: i64 = 8_210_266_876_799;

/// What `chrono::DateTime::parse_from_rfc3339` makes of a text: the instant
/// it denotes, as seconds and nanoseconds, or `None` where it rejects the text.
pub uninterp spec fn rfc3339_instant(text: Seq<char>) -> Option<(i64, u32)>;

/// `chrono::ParseError`, of which nothing is known here: it only says
/// that a text was rejected.
#[verifier::external_type_specification]
#[verifier::external_body]
pub struct ExParseError(chrono::ParseError);

/// Calls `chrono::DateTime::parse_from_rfc3339` and converts the parsed value
/// to UTC seconds and nanoseconds. The contract names the outcome: it is a
/// function of the text alone, and the call fails exactly where that
/// function has no value.
#[verifier::external_body]
fn chrono_parse_rfc3339(text: &str) -> (r: Result<(i64, u32), chrono::ParseError>)
    ensures
        r is Ok <==> rfc3339_instant(text@) is Some,
        r matches Ok(v) ==> rfc3339_instant(text@) == Some(v),
{
    match chrono::DateTime::parse_from_rfc3339(text) {
        Ok(parsed) => {
            let utc = parsed.with_timezone(&chrono::Utc);
            Ok((utc.timestamp(), utc.timestamp_subsec_nanos()))
        },
        Err(e) => Err(e),
    }
}

/// Calls `chrono::DateTime::from_timestamp` with zero nanoseconds and
/// reports whether it yields a value. It does so exactly for the seconds
/// between the first second of the year -262143 and the last second of the
/// year 262142, the dates that `chrono::NaiveDate` covers.
#[verifier::external_body]
fn chrono_accepts_seconds(secs: i64) -> (r: bool)
    ensures
        r == (MIN_SECONDS <= secs <= MAX_SECONDS),
{
    chrono::DateTime::from_timestamp(secs, 0).is_some()
}

impl Timestamp {
    pub fn new(secs: i64, nanos: u32) -> (r: Timestamp)
        ensures
            r == (Timestamp { secs, nanos }),
    {
        Timestamp { secs, nanos }
    }

    /// 1970-01-01T00:00:00Z.
    pub open spec fn epoch() -> Timestamp {
        Timestamp { secs: 0, nanos: 0 }
    }

    /// 1970-01-01T00:00:00Z.
    pub fn unix_epoch() -> (r: Timestamp)
        ensures
            r == Timestamp::epoch(),
    {
        Timestamp { secs: 0, nanos: 0 }
    }

    /// Whether `self` lies strictly after `other`.
    pub open spec fn after(self, other: Timestamp) -> bool {
        self.secs > other.secs || (self.secs == other.secs && self.nanos > other.nanos)
    }

    /// Whether `self` lies strictly after `other`.
    pub fn is_after(&self, other: &Timestamp) -> (r: bool)
        ensures
            r == self.after(*other),
    {
        self.secs > other.secs || (self.secs == other.secs && self.nanos > other.nanos)
    }

    /// The later of two instants.
    pub open spec fn later(self, other: Timestamp) -> Timestamp {
        if other.after(self) {
            other
        } else {
            self
        }
    }

    /// The later of two instants.
    pub fn later_of(self, other: Timestamp) -> (r: Timestamp)
        ensures
            r == self.later(other),
    {
        if other.is_after(&self) {
            other
        } else {
            self
        }
    }

    /// The instant that an RFC 3339 text denotes, if it is one.
    pub open spec fn of_rfc3339(text: Seq<char>) -> Option<Timestamp> {
        match rfc3339_instant(text) {
            Some(v) => Some(Timestamp { secs: v.0, nanos: v.1 }),
            None => None,
        }
    }

    /// Parses an RFC 3339 date and time, such as `2025-01-01T00:00:00Z`.
    pub fn parse_rfc3339(text: &str) -> (r: Option<Timestamp>)
        ensures
            r == Timestamp::of_rfc3339(text@),
    {
        match chrono_parse_rfc3339(text) {
            Ok(v) => Some(Timestamp { secs: v.0, nanos: v.1 }),
            Err(_) => None,
        }
    }

    /// The instant `secs` whole seconds from the Unix epoch, where the
    /// calendar can represent it.
    pub open spec fn of_seconds(secs: i64) -> Option<Timestamp> {
        if MIN_SECONDS <= secs <= MAX_SECONDS {
            Some(Timestamp { secs, nanos: 0 })
        } else {
            None
        }
    }

    /// The instant `secs` whole seconds from the Unix epoch, or `None` where
    /// no calendar date corresponds to it.
    pub fn from_seconds(secs: i64) -> (r: Option<Timestamp>)
        ensures
            r == Timestamp::of_seconds(secs),
    {
        if chrono_accepts_seconds(secs) {
            Some(Timestamp { secs, nanos: 0 })
        } else {
            None
        }
    }
}

} // verus!
