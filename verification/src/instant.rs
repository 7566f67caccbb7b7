//! Instants on the UTC time line and the thirty-day window.
use vstd::prelude::*;

verus! {

/// Length of the summary window in seconds: thirty days.
pub const WINDOW_SECS: i64 = 2_592_000;

/// A point in time in UTC: whole seconds since the Unix epoch and the
/// nanoseconds into that second. During a leap second the nanoseconds run
/// past one thousand million, so instants are ordered by seconds first and
/// nanoseconds second.
#[derive(Debug, Clone, Copy, PartialEq, Eq, Structural)]
pub struct Instant {
    pub secs: i64,
    pub nanos: u32,
}

/// The error of chrono's timestamp parser. Nothing is read from it.
#[verifier::external_type_specification]
#[verifier::external_body]
pub struct ExTimestampError(chrono::ParseError);

/// The instant that chrono reads from a text, as seconds and nanoseconds, or
/// `None` where chrono rejects the text.
pub uninterp spec fn instant_of_text(text: Seq<char>) -> Option<(i64, u32)>;

/// The text that chrono writes for the instant at the given seconds and
/// nanoseconds, or `None` where chrono has no date for them.
pub uninterp spec fn text_of_instant(secs: i64, nanos: u32) -> Option<Seq<char>>;

/// Reads the system clock with `std::time::SystemTime::now`, makes a date of
/// it with chrono's `From<SystemTime>` for `DateTime<Utc>`, and takes that
/// apart with `DateTime::timestamp` and `DateTime::timestamp_subsec_nanos`.
/// The clock decides the result. chrono builds the date with
/// `DateTime::from_timestamp` from whole seconds and from nanoseconds below
/// one second, on either side of 1970, and the two accessors give those
/// numbers back: so the nanoseconds stay below one second, and the instant is
/// one that chrono has a date for and can write.
#[verifier::external_body]
pub(crate) fn clock_now() -> (now: Instant)
    ensures
        now.nanos < 1_000_000_000,
        text_of_instant(now.secs, now.nanos) is Some,
{
    let now = chrono::DateTime::<chrono::Utc>::from(std::time::SystemTime::now());
    Instant { secs: now.timestamp(), nanos: now.timestamp_subsec_nanos() }
}

/// Calls chrono's `FromStr` for `DateTime<Utc>`, which accepts RFC 3339 in a
/// relaxed form and converts any offset to UTC. The contract only names what
/// chrono returns: the same text always reads as the same instant.
#[verifier::external_body]
pub(crate) fn parse_timestamp(text: &str) -> (parsed: Result<Instant, chrono::ParseError>)
    ensures
        match parsed {
            Ok(t) => instant_of_text(text@) == Some((t.secs, t.nanos)),
            Err(_) => instant_of_text(text@) is None,
        },
{
    let parsed = text.parse::<chrono::DateTime<chrono::Utc>>()?;
    Ok(Instant { secs: parsed.timestamp(), nanos: parsed.timestamp_subsec_nanos() })
}

/// Builds the date with `chrono::DateTime::from_timestamp` and writes it with
/// `DateTime::to_rfc3339_opts`, with automatic subsecond digits and `Z` for
/// the offset. The contract only names what chrono returns: `None` where it
/// has no date for the numbers, else the text.
#[verifier::external_body]
pub(crate) fn format_timestamp(t: &Instant) -> (text: Option<String>)
    ensures
        match text {
            Some(s) => text_of_instant(t.secs, t.nanos) == Some(s@),
            None => text_of_instant(t.secs, t.nanos) is None,
        },
{
    let date = chrono::DateTime::from_timestamp(t.secs, t.nanos)?;
    Some(date.to_rfc3339_opts(chrono::SecondsFormat::AutoSi, true))
}

impl Instant {
    /// The instant that a stored timestamp stands for.
    pub open spec fn read(text: Seq<char>) -> Option<Instant> {
        match instant_of_text(text) {
            Some((secs, nanos)) => Some(Instant { secs, nanos }),
            None => None,
        }
    }

    /// The stored timestamp of this instant.
    pub open spec fn written(self) -> Option<Seq<char>> {
        text_of_instant(self.secs, self.nanos)
    }

    /// What holds of every instant that the system clock gives: it is not
    /// inside a leap second, and it can be written as a timestamp.
    pub open spec fn from_clock(self) -> bool {
        self.nanos < 1_000_000_000 && self.written() is Some
    }

    /// The current time of the system clock.
    pub fn now() -> (now: Instant)
        ensures
            now.from_clock(),
    {
        clock_now()
    }

    /// Reads a stored timestamp; `None` where it is not a date and time with
    /// an offset.
    pub fn parse(text: &str) -> (t: Option<Instant>)
        ensures
            t == Instant::read(text@),
    {
        match parse_timestamp(text) {
            Ok(t) => Some(t),
            Err(_) => None,
        }
    }

    /// Writes this instant as a timestamp; `None` where it lies outside the
    /// calendar's range.
    pub fn text(&self) -> (text: Option<String>)
        ensures
            match text {
                Some(s) => self.written() == Some(s@),
                None => self.written() is None,
            },
    {
        format_timestamp(self)
    }

    /// Strictly later on the time line.
    pub open spec fn later_than(self, other: Instant) -> bool {
        self.secs > other.secs || (self.secs == other.secs && self.nanos > other.nanos)
    }

    /// Strictly later than the cutoff, which lies thirty days before `now`.
    /// The cutoff itself is outside the window.
    pub open spec fn in_window(self, now: Instant) -> bool {
        self.secs + WINDOW_SECS > now.secs || (self.secs + WINDOW_SECS == now.secs && self.nanos
            > now.nanos)
    }

    pub fn new(secs: i64, nanos: u32) -> (t: Instant)
        ensures
            t.secs == secs,
            t.nanos == nanos,
    {
        Instant { secs, nanos }
    }

    /// Whether this instant is strictly later than `other`.
    pub fn is_after(&self, other: &Instant) -> (later: bool)
        ensures
            later == self.later_than(*other),
    {
        self.secs > other.secs || (self.secs == other.secs && self.nanos > other.nanos)
    }

    /// Whether this instant falls in the thirty days that end at `now`.
    pub fn is_recent(&self, now: &Instant) -> (recent: bool)
        ensures
            recent == self.in_window(*now),
    {
        if self.secs > i64::MAX - WINDOW_SECS {
            true
        } else {
            let shifted: i64 = self.secs + WINDOW_SECS;
            shifted > now.secs || (shifted == now.secs && self.nanos > now.nanos)
        }
    }
}

/// Where the cutoff is itself an instant, the window holds exactly the
/// instants that are later than it.
pub proof fn lemma_window_is_after_cutoff(t: Instant, now: Instant)
    requires
        now.secs - WINDOW_SECS >= i64::MIN,
    ensures
        t.in_window(now) <==> t.later_than(
            (Instant { secs: (now.secs - WINDOW_SECS) as i64, nanos: now.nanos }),
        ),
{
}

} // verus!
