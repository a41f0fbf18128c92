//! Points in time, as the state records them.

use vstd::prelude::*;

verus! {

/// An instant in UTC: whole seconds since the Unix epoch and the nanoseconds
/// past that second. Its view is the number of nanoseconds since the epoch.
#[derive(Debug, PartialEq, Eq)]
pub struct Timestamp {
    pub secs: i64,
    pub nanos: u32,
}

impl View for Timestamp {
    type V = int;

    open spec fn view(&self) -> int {
        self.secs * 1_000_000_000 + self.nanos
    }
}

impl Clone for Timestamp {
    fn clone(&self) -> (r: Self)
        ensures
            r == *self,
    {
        Timestamp { secs: self.secs, nanos: self.nanos }
    }
}

impl Copy for Timestamp {}

/// More seconds than lie between the epoch and any instant that the clock
/// can show.
pub const CLOCK_SPAN: i64 = 0x1_0000_0000_0000;

/// The RFC 3339 text of the instant `secs` seconds and `nanos` nanoseconds
/// after the epoch, where the calendar can express it.
pub uninterp spec fn rfc3339_text(secs: int, nanos: int) -> Option<Seq<char>>;

/// `chrono::Utc::now`, read off with `DateTime::timestamp` and
/// `DateTime::timestamp_subsec_nanos`. Trusted: the instant is made by
/// `DateTime::from_timestamp` from the time that the system clock counts, so
/// its nanoseconds stay below one second and its seconds within the days
/// that a date can number, which is less than [`CLOCK_SPAN`] either way.
/// Nothing else is said of which instant comes back. With a system clock
/// set before 1970 the call does not return.
#[verifier::external_body]
pub(crate) fn utc_now() -> (t: Timestamp)
    ensures
        t.valid(),
        -CLOCK_SPAN < t.secs < CLOCK_SPAN,
{
    let now = chrono::Utc::now();
    Timestamp { secs: now.timestamp(), nanos: now.timestamp_subsec_nanos() }
}

/// `chrono::DateTime::from_timestamp` followed by `DateTime::to_rfc3339`.
/// Trusted: the text depends on the two numbers alone, and there is none
/// where `from_timestamp` has no date for them.
#[verifier::external_body]
pub(crate) fn to_rfc3339(secs: i64, nanos: u32) -> (r: Option<String>)
    ensures
        r is Some <==> rfc3339_text(secs as int, nanos as int) is Some,
        r matches Some(s) ==> rfc3339_text(secs as int, nanos as int) == Some(s@),
{
    match chrono::DateTime::from_timestamp(secs, nanos) {
        Some(at) => Some(at.to_rfc3339()),
        None => None,
    }
}

impl Timestamp {
    /// The nanoseconds are less than a second.
    pub open spec fn valid(&self) -> bool {
        self.nanos < 1_000_000_000
    }

    /// The instant `secs` seconds and `nanos` nanoseconds after the epoch;
    /// `None` where the nanoseconds make up a second or more.
    pub fn new(secs: i64, nanos: u32) -> (r: Option<Timestamp>)
        ensures
            r is Some <==> nanos < 1_000_000_000,
            r matches Some(t) ==> t.valid() && t.secs == secs && t.nanos == nanos,
    {
        if nanos < 1_000_000_000 {
            Some(Timestamp { secs, nanos })
        } else {
            None
        }
    }

    /// The instant `secs` seconds and `nanos` nanoseconds after the epoch.
    /// An instant within a leap second, which is written with a second or
    /// more of nanoseconds, is taken at the last nanosecond before it: the
    /// seconds here count no leap second.
    pub fn within_second(secs: i64, nanos: u32) -> (t: Timestamp)
        ensures
            t.valid(),
            t.secs == secs,
            t.nanos == if nanos < 1_000_000_000 {
                nanos
            } else {
                999_999_999u32
            },
    {
        if nanos < 1_000_000_000 {
            Timestamp { secs, nanos }
        } else {
            Timestamp { secs, nanos: 999_999_999 }
        }
    }

    /// Whether this instant is `other` or earlier.
    pub fn at_or_before(&self, other: &Timestamp) -> (b: bool)
        requires
            self.valid(),
            other.valid(),
        ensures
            b == (self@ <= other@),
    {
        self.secs < other.secs || (self.secs == other.secs && self.nanos <= other.nanos)
    }

    /// The instant `secs` seconds earlier, or `None` where its seconds do not
    /// fit the field.
    pub fn minus_secs(&self, secs: u64) -> (r: Option<Timestamp>)
        ensures
            r is Some <==> self.secs - secs >= i64::MIN,
            r matches Some(t) ==> t@ == self@ - secs * 1_000_000_000 && t.nanos == self.nanos,
    {
        let diff: i128 = self.secs as i128 - secs as i128;
        if diff < i64::MIN as i128 {
            None
        } else {
            Some(Timestamp { secs: diff as i64, nanos: self.nanos })
        }
    }

    /// The instant `secs` seconds later (earlier where `secs` is negative),
    /// or `None` where its seconds do not fit the field.
    pub fn plus_secs(&self, secs: i64) -> (r: Option<Timestamp>)
        ensures
            r is Some <==> i64::MIN <= self.secs + secs <= i64::MAX,
            r matches Some(t) ==> t@ == self@ + secs * 1_000_000_000 && t.nanos == self.nanos,
    {
        match self.secs.checked_add(secs) {
            Some(sum) => Some(Timestamp { secs: sum, nanos: self.nanos }),
            None => None,
        }
    }
}

} // verus!
