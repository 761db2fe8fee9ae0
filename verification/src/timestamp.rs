//! Points in time and their RFC 3339 text.
//!
//! A [`Timestamp`] counts non-leap seconds from 1970-01-01T00:00:00Z and
//! nanoseconds within the second. It spans the years -262143 to 262142, far
//! more than RFC 3339 can write: only the years 0000 to 9999 have a text that
//! reads back.

use chrono::DateTime;
use chrono::Utc;
use vstd::prelude::*;

verus! {

/// Seconds of the earliest timestamp, -262143-01-01T00:00:00Z.
pub const MIN_SECONDS: i64 = -8_334_601_228_800;

/// Seconds of the latest timestamp, +262142-12-31T23:59:59Z.
pub const MAX_SECONDS: i64 = 8_210_266_876_799;

/// Seconds of 0000-01-01T00:00:00Z, the earliest instant RFC 3339 can write.
pub const RFC3339_MIN_SECONDS: i64 = -62_167_219_200;

/// Seconds of 9999-12-31T23:59:59Z, the latest second RFC 3339 can write.
pub const RFC3339_MAX_SECONDS: i64 = 253_402_300_799;

/// What a [`Timestamp`] stands for: seconds since the epoch and nanoseconds
/// within the second.
pub struct Instant {
    pub secs: i64,
    pub nanos: u32,
}

impl Instant {
    /// The pair is a point in time: the seconds are in range, and the
    /// nanoseconds stay below one second, or below two in the last second of a
    /// minute, where the second half stands for a leap second.
    pub open spec fn is_valid(self) -> bool {
        &&& MIN_SECONDS <= self.secs <= MAX_SECONDS
        &&& self.nanos < 2_000_000_000
        &&& (self.nanos >= 1_000_000_000 ==> self.secs as int % 60 == 59)
    }

    /// The instant lies in the years 0000 to 9999.
    pub open spec fn in_rfc3339_years(self) -> bool {
        RFC3339_MIN_SECONDS <= self.secs <= RFC3339_MAX_SECONDS
    }
}

/// The RFC 3339 text that `DateTime::<Utc>::to_rfc3339` writes for the instant
/// of `secs` and `nanos`.
pub uninterp spec fn rfc3339_text(secs: i64, nanos: u32) -> Seq<char>;

/// The instant, in UTC, that `DateTime::parse_from_rfc3339` reads from `text`,
/// `None` where it rejects the text.
pub uninterp spec fn rfc3339_instant(text: Seq<char>) -> Option<(i64, u32)>;

/// A point in time between -262143-01-01T00:00:00Z and +262142-12-31T23:59:59Z.
#[derive(Clone, Copy, Debug, PartialEq, Eq)]
pub struct Timestamp {
    secs: i64,
    nanos: u32,
}

impl View for Timestamp {
    type V = Instant;

    closed spec fn view(&self) -> Instant {
        Instant { secs: self.secs, nanos: self.nanos }
    }
}

/// Calls `DateTime::<Utc>::from_timestamp` and, on the value it gives,
/// `DateTime::to_rfc3339`. Trusted: a valid instant is in range for
/// `from_timestamp`; the text is the one named by [`rfc3339_text`]; and for the
/// years 0000 to 9999 that text is one `DateTime::parse_from_rfc3339` reads as
/// the same instant.
#[verifier::external_body]
fn chrono_to_rfc3339(secs: i64, nanos: u32) -> (text: Option<String>)
    ensures
        (Instant { secs, nanos }).is_valid() ==> text is Some,
        text matches Some(t) ==> t@ == rfc3339_text(secs, nanos),
        text matches Some(t) ==> ((Instant { secs, nanos }).in_rfc3339_years() ==> rfc3339_instant(
            t@,
        ) == Some((secs, nanos))),
{
    match DateTime::from_timestamp(secs, nanos) {
        Some(t) => Some(t.to_rfc3339()),
        None => None,
    }
}

/// Calls `DateTime::parse_from_rfc3339` and moves the result to UTC with
/// `DateTime::with_timezone`. Trusted: the outcome is the one named by
/// [`rfc3339_instant`], and an instant that comes back is valid.
#[verifier::external_body]
fn chrono_parse_from_rfc3339(text: &str) -> (r: Option<(i64, u32)>)
    ensures
        r == rfc3339_instant(text@),
        r matches Some(p) ==> (Instant { secs: p.0, nanos: p.1 }).is_valid(),
{
    match DateTime::parse_from_rfc3339(text) {
        Ok(t) => {
            let utc = t.with_timezone(&Utc);
            Some((utc.timestamp(), utc.timestamp_subsec_nanos()))
        },
        Err(_) => None,
    }
}

impl Timestamp {
    #[verifier::type_invariant]
    spec fn well_formed(self) -> bool {
        self@.is_valid()
    }

    /// The timestamp of `secs` seconds since the epoch and `nanos` nanoseconds,
    /// if that pair is a point in time.
    pub fn new(secs: i64, nanos: u32) -> (r: Option<Timestamp>)
        ensures
            r is Some <==> (Instant { secs, nanos }).is_valid(),
            r matches Some(t) ==> t@ == (Instant { secs, nanos }),
    {
        if secs < MIN_SECONDS || secs > MAX_SECONDS || nanos >= 2_000_000_000 {
            return None;
        }
        if nanos >= 1_000_000_000 && (secs - MIN_SECONDS) % 60 != 59 {
            return None;
        }
        Some(Timestamp { secs, nanos })
    }

    /// Seconds since 1970-01-01T00:00:00Z, not counting leap seconds.
    pub fn secs(&self) -> (r: i64)
        ensures
            r == self@.secs,
    {
        self.secs
    }

    /// Nanoseconds within the second; a billion or more during a leap second.
    pub fn nanos(&self) -> (r: u32)
        ensures
            r == self@.nanos,
    {
        self.nanos
    }

    /// The RFC 3339 text of the timestamp. For the years 0000 to 9999 the text
    /// reads back as the same timestamp.
    pub fn to_rfc3339(&self) -> (text: String)
        ensures
            self@.is_valid(),
            text@ == rfc3339_text(self@.secs, self@.nanos),
            self@.in_rfc3339_years() ==> rfc3339_instant(text@) == Some((self@.secs, self@.nanos)),
    {
        proof {
            use_type_invariant(self);
        }
        let text = chrono_to_rfc3339(self.secs, self.nanos);
        text.unwrap()
    }

    /// Reads an RFC 3339 text, whatever its offset, as a timestamp in UTC.
    pub fn parse_from_rfc3339(text: &str) -> (r: Option<Timestamp>)
        ensures
            match r {
                Some(t) => t@.is_valid() && rfc3339_instant(text@) == Some((t@.secs, t@.nanos)),
                None => rfc3339_instant(text@) is None,
            },
    {
        match chrono_parse_from_rfc3339(text) {
            Some(p) => Some(Timestamp { secs: p.0, nanos: p.1 }),
            None => None,
        }
    }
}

} // verus!
