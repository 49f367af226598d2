//! Points in time as the requests write them.

use vstd::prelude::*;

verus! {

/// The text that `chrono` writes for the point in time `secs` seconds after
/// the epoch, in UTC, after the pattern; `None` where `chrono` has no date
/// for `secs` or cannot write after the pattern.
pub uninterp spec fn utc_text(secs: int, pattern: Seq<char>) -> Option<Seq<char>>;

/// The point in time that `chrono` reads from a timestamp of the API, as
/// whole seconds since the epoch and the nanoseconds of the second begun;
/// `None` where `chrono` reads no point in time from the text.
pub uninterp spec fn timestamp_instant(text: Seq<char>) -> Option<(int, int)>;

/// The pattern after which a request parameter writes a point in time:
/// year, month, day, `T`, hour, minute, second, `Z`, with hyphens in the
/// date and nothing between the parts of the time.
pub const COMPACT: &'static str = "%Y-%m-%dT%H%M%SZ";

/// The text of a point in time as a request parameter writes it.
pub open spec fn utc_compact_text(secs: int) -> Option<Seq<char>> {
    utc_text(secs, COMPACT@)
}

/// Whether the text is a timestamp: `chrono` reads a point in time from
/// it.
pub open spec fn is_timestamp(text: Seq<char>) -> bool {
    timestamp_instant(text) is Some
}

/// `DateTime::from_timestamp` of the `chrono` crate, then `format` with
/// the pattern and `DelayedFormat::write_to`: the text for the point in
/// time, which depends on `secs` and the pattern alone; `None` where
/// `from_timestamp` returns none or `write_to` returns its error.
#[verifier::external_body]
pub(crate) fn format_utc(secs: i64, pattern: &str) -> (text: Option<String>)
    ensures
        text.deep_view() == utc_text(secs as int, pattern@),
{
    let time = chrono::DateTime::from_timestamp(secs, 0)?;
    let mut text = String::new();
    time.format(pattern).write_to(&mut text).ok()?;
    Some(text)
}

/// `FromStr` of the `chrono` crate for `DateTime<Utc>`, which reads a
/// relaxed form of RFC 3339, then `timestamp` and
/// `timestamp_subsec_nanos`: the point in time that the text denotes, which
/// depends on the text alone; `None` where `from_str` returns its error.
#[verifier::external_body]
pub(crate) fn read_timestamp(text: &str) -> (instant: Option<(i64, u32)>)
    ensures
        match instant {
            Some(read) => timestamp_instant(text@) == Some((read.0 as int, read.1 as int)),
            None => timestamp_instant(text@) is None,
        },
{
    let time = text.parse::<chrono::DateTime<chrono::Utc>>().ok()?;
    Some((time.timestamp(), time.timestamp_subsec_nanos()))
}

/// A point in time, in UTC, that has a date: whole seconds since the
/// epoch and the nanoseconds of the second begun.
#[derive(Debug, Clone, Copy)]
pub struct UtcTime {
    secs: i64,
    nanos: u32,
}

impl UtcTime {
    #[verifier::type_invariant]
    spec fn has_date(self) -> bool {
        utc_compact_text(self.secs as int) is Some && self.nanos < 1_000_000_000
    }

    /// Whole seconds since the epoch.
    pub closed spec fn seconds(&self) -> i64 {
        self.secs
    }

    /// Nanoseconds of the second begun.
    pub closed spec fn nanoseconds(&self) -> u32 {
        self.nanos
    }

    /// The point in time `nanos` nanoseconds after the second `secs` since
    /// the epoch, where there is a date for it and `nanos` is less than a
    /// second.
    pub fn from_timestamp(secs: i64, nanos: u32) -> (time: Option<UtcTime>)
        ensures
            time is Some <==> utc_compact_text(secs as int) is Some && nanos < 1_000_000_000,
            time matches Some(t) ==> t.seconds() == secs && t.nanoseconds() == nanos,
    {
        if nanos >= 1_000_000_000 {
            return None;
        }
        match format_utc(secs, COMPACT) {
            Some(_) => Some(UtcTime { secs, nanos }),
            None => None,
        }
    }

    /// The point in time that a timestamp of the API denotes, where it
    /// denotes one that has a date and does not lie in a leap second.
    pub fn parse(text: &str) -> (time: Option<UtcTime>)
        ensures
            time is Some <==> (timestamp_instant(text@) matches Some(read) && utc_compact_text(
                read.0,
            ) is Some && read.1 < 1_000_000_000),
            time matches Some(t) ==> timestamp_instant(text@) == Some(
                (t.seconds() as int, t.nanoseconds() as int),
            ),
    {
        match read_timestamp(text) {
            Some((secs, nanos)) => Self::from_timestamp(secs, nanos),
            None => None,
        }
    }

    /// Whole seconds since the epoch.
    pub fn timestamp(&self) -> (secs: i64)
        ensures
            secs == self.seconds(),
    {
        self.secs
    }

    /// Nanoseconds of the second begun.
    pub fn timestamp_subsec_nanos(&self) -> (nanos: u32)
        ensures
            nanos == self.nanoseconds(),
            nanos < 1_000_000_000,
    {
        proof {
            use_type_invariant(self);
        }
        self.nanos
    }

    /// The point in time as a request parameter writes it, to the second.
    pub fn compact(&self) -> (text: String)
        ensures
            utc_compact_text(self.seconds() as int) == Some(text@),
    {
        proof {
            use_type_invariant(self);
        }
        match format_utc(self.secs, COMPACT) {
            Some(text) => text,
            None => String::new(),
        }
    }
}

} // verus!
