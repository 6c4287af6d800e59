//! Instants and spans of time as the engine reads them, and their RFC 3339
//! text, which `chrono` writes and reads.

use crate::canonical::canonical;
use crate::canonical::read_canonical;
use vstd::prelude::*;

verus! {

/// The text that `chrono` writes for the instant `nanos` nanoseconds after
/// the whole second `secs` of the Unix epoch; `None` where `chrono` has no
/// such instant.
pub uninterp spec fn rfc3339_text(secs: i64, nanos: u32) -> Option<Seq<char>>;

/// The instant that `chrono` reads out of a text, as whole seconds of the
/// Unix epoch and nanoseconds after them; `None` where it rejects the text.
pub uninterp spec fn rfc3339_instant(text: Seq<char>) -> Option<(i64, u32)>;

/// `chrono::Utc::now`, taken apart by `DateTime::timestamp` and
/// `DateTime::timestamp_subsec_nanos`. Nothing is claimed of the clock.
/// `chrono` panics where the system clock stands before 1970.
#[verifier::external_body]
fn utc_now() -> (now: (i64, u32)) {
    let now = chrono::Utc::now();
    (now.timestamp(), now.timestamp_subsec_nanos())
}

/// `chrono::DateTime::to_rfc3339` on the instant that
/// `chrono::DateTime::from_timestamp` makes of `secs` and `nanos`. The text
/// depends on the two numbers alone; it is `None` exactly where
/// `from_timestamp` refuses them.
#[verifier::external_body]
fn write_rfc3339(secs: i64, nanos: u32) -> (text: Option<String>)
    ensures
        match text {
            Some(t) => rfc3339_text(secs, nanos) == Some(t@),
            None => rfc3339_text(secs, nanos) is None,
        },
{
    match chrono::DateTime::from_timestamp(secs, nanos) {
        Some(instant) => Some(instant.to_rfc3339()),
        None => None,
    }
}

/// `chrono::DateTime::parse_from_rfc3339`, the result moved to UTC and taken
/// apart by `DateTime::timestamp` and `DateTime::timestamp_subsec_nanos`.
/// The instant depends on the text alone; it is `None` exactly where
/// `chrono` rejects the text.
#[verifier::external_body]
fn read_rfc3339(text: &str) -> (instant: Option<(i64, u32)>)
    ensures
        instant == rfc3339_instant(text@),
{
    match chrono::DateTime::parse_from_rfc3339(text) {
        Ok(parsed) => {
            let utc = parsed.with_timezone(&chrono::Utc);
            Some((utc.timestamp(), utc.timestamp_subsec_nanos()))
        },
        Err(_) => None,
    }
}

/// Nanoseconds in a second.
pub open spec fn nanos_per_second() -> int {
    1_000_000_000
}

/// A span of time: whole seconds and nanoseconds, each of either sign.
#[derive(Clone, Copy, Debug, PartialEq, Eq, Structural)]
pub struct TimeToLive {
    pub secs: i64,
    pub nanos: i32,
}

impl TimeToLive {
    /// The span in nanoseconds.
    pub open spec fn span(self) -> int {
        self.secs * nanos_per_second() + self.nanos
    }

    /// The span of `secs` seconds and `nanos` nanoseconds.
    pub fn new(secs: i64, nanos: i32) -> (ttl: TimeToLive)
        ensures
            ttl == (TimeToLive { secs, nanos }),
    {
        TimeToLive { secs, nanos }
    }

    /// The span of so many minutes, where its seconds fit 64 bits.
    pub fn minutes(minutes: i64) -> (ttl: Option<TimeToLive>)
        ensures
            ttl == if i64::MIN <= minutes * 60 <= i64::MAX {
                Some(TimeToLive { secs: (minutes * 60) as i64, nanos: 0 })
            } else {
                None
            },
    {
        if minutes > i64::MAX / 60 || minutes < i64::MIN / 60 {
            None
        } else {
            Some(TimeToLive { secs: minutes * 60, nanos: 0 })
        }
    }
}

/// An instant in UTC: whole seconds since the start of 1970 and nanoseconds
/// after them. During a leap second the nanoseconds run past a full second,
/// as `chrono` counts them.
#[derive(Clone, Copy, Debug, PartialEq, Eq, Structural)]
pub struct Timestamp {
    pub secs: i64,
    pub nanos: u32,
}

impl Timestamp {
    /// Nanoseconds since the start of 1970.
    pub open spec fn instant(self) -> int {
        self.secs * nanos_per_second() + self.nanos
    }

    /// Whether `self` comes strictly before `other`: by the seconds, and
    /// among equal seconds by the nanoseconds.
    pub open spec fn is_before(self, other: Timestamp) -> bool {
        self.secs < other.secs || (self.secs == other.secs && self.nanos < other.nanos)
    }

    /// The instant a span after `self`, where its seconds fit 64 bits.
    pub open spec fn plus(self, ttl: TimeToLive) -> Option<Timestamp> {
        let total = self.instant() + ttl.span();
        if i64::MIN <= total / nanos_per_second() <= i64::MAX {
            Some(
                Timestamp {
                    secs: (total / nanos_per_second()) as i64,
                    nanos: (total % nanos_per_second()) as u32,
                },
            )
        } else {
            None
        }
    }

    /// The RFC 3339 text of the instant, where it has one that is canonical
    /// for it and that reads back as the same instant.
    pub open spec fn text(self) -> Option<Seq<char>> {
        match rfc3339_text(self.secs, self.nanos) {
            Some(text) => if Timestamp::of_text(text) == Some(self) && canonical(text) == Some(
                self,
            ) {
                Some(text)
            } else {
                None
            },
            None => None,
        }
    }

    /// The instant that a text stands for, where it is RFC 3339.
    pub open spec fn of_text(text: Seq<char>) -> Option<Timestamp> {
        match rfc3339_instant(text) {
            Some((secs, nanos)) => Some(Timestamp { secs, nanos }),
            None => None,
        }
    }

    /// The instant of `nanos` nanoseconds after the whole second `secs`.
    pub fn new(secs: i64, nanos: u32) -> (at: Timestamp)
        ensures
            at == (Timestamp { secs, nanos }),
    {
        Timestamp { secs, nanos }
    }

    /// The present instant, by the system clock.
    pub fn now() -> Timestamp {
        let (secs, nanos) = utc_now();
        Timestamp { secs, nanos }
    }

    /// Whether `self` comes strictly before `other`.
    pub fn before(&self, other: &Timestamp) -> (earlier: bool)
        ensures
            earlier == self.is_before(*other),
    {
        self.secs < other.secs || (self.secs == other.secs && self.nanos < other.nanos)
    }

    /// The instant a span after `self`; `None` where its seconds do not fit
    /// 64 bits.
    pub fn checked_add(&self, ttl: &TimeToLive) -> (sum: Option<Timestamp>)
        ensures
            sum == self.plus(*ttl),
    {
        // Between -3 and 6 seconds' worth: shifted by 3 seconds so that the
        // division below is of a number that is not negative.
        let shifted: i64 = self.nanos as i64 + ttl.nanos as i64 + 3_000_000_000;
        let carry: i64 = shifted / 1_000_000_000 - 3;
        let nanos: i64 = shifted % 1_000_000_000;
        let secs: i128 = self.secs as i128 + ttl.secs as i128 + carry as i128;
        assert(secs * nanos_per_second() + nanos == self.instant() + ttl.span());
        if secs < i64::MIN as i128 || secs > i64::MAX as i128 {
            None
        } else {
            Some(Timestamp { secs: secs as i64, nanos: nanos as u32 })
        }
    }

    /// Keeps a text that was written for this instant only where it is the
    /// canonical text of this very instant and `read_back`, what the text
    /// reads back as, is this very instant too.
    pub fn confirm(&self, text: String, read_back: Option<Timestamp>) -> (kept: Option<String>)
        ensures
            kept == if read_back == Some(*self) && canonical(text@) == Some(*self) {
                Some(text)
            } else {
                None
            },
    {
        match (read_back, read_canonical(text.as_str())) {
            (Some(back), Some(own)) => if back.secs == self.secs && back.nanos == self.nanos
                && own.secs == self.secs && own.nanos == self.nanos {
                Some(text)
            } else {
                None
            },
            _ => None,
        }
    }

    /// Writes the instant as RFC 3339 and reads the text back: the text is
    /// returned only where it is canonical and stands for this very instant,
    /// so that whatever is stored under it is found again with the same
    /// expiry and sorts among the other expiries by its time. An instant
    /// outside the years 0000 to 9999 has no such text.
    pub fn to_rfc3339(&self) -> (text: Option<String>)
        ensures
            match text {
                Some(t) => self.text() == Some(t@),
                None => self.text() is None,
            },
    {
        match write_rfc3339(self.secs, self.nanos) {
            Some(text) => {
                let read_back = Timestamp::parse_from_rfc3339(text.as_str());
                self.confirm(text, read_back)
            },
            None => None,
        }
    }

    /// Reads an instant out of RFC 3339 text; `None` where the text is not
    /// RFC 3339.
    pub fn parse_from_rfc3339(text: &str) -> (at: Option<Timestamp>)
        ensures
            at == Timestamp::of_text(text@),
    {
        match read_rfc3339(text) {
            Some((secs, nanos)) => Some(Timestamp { secs, nanos }),
            None => None,
        }
    }
}

} // verus!
