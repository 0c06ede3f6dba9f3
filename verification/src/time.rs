use vstd::prelude::*;

verus! {

/// An instant on the UTC time line: whole seconds since 1970-01-01T00:00:00Z and
/// the nanoseconds into that second. Instants are ordered by seconds, then by
/// nanoseconds.
#[derive(Clone, Copy, Debug, PartialEq, Eq, Structural, PartialOrd, Ord, Hash)]
pub struct Timestamp {
    pub secs: i64,
    pub nanos: u32,
}

/// The RFC 3339 text of the instant `secs`, `nanos`, where the calendar has such
/// an instant.
pub uninterp spec fn rfc3339_text(secs: i64, nanos: u32) -> Option<Seq<char>>;

/// The instant, as seconds and nanoseconds, that an RFC 3339 text denotes, where
/// the text is well formed.
pub uninterp spec fn rfc3339_instant(text: Seq<char>) -> Option<(i64, u32)>;

/// `chrono::Utc::now`, read as seconds and nanoseconds. Which instant it is the
/// system clock says; of every reading two things hold. chrono makes the value
/// by `DateTime::from_timestamp`, so the calendar has the instant and its text
/// can be written; and it is made from a whole second and the fraction of one,
/// so it does not stand within a leap second.
#[verifier::external_body]
fn clock_now() -> (now: Timestamp)
    ensures
        rfc3339_text(now.secs, now.nanos) is Some,
        now.nanos < 1_000_000_000,
{
    let now = chrono::Utc::now();
    Timestamp { secs: now.timestamp(), nanos: now.timestamp_subsec_nanos() }
}

/// `chrono::DateTime::to_rfc3339` on the UTC instant that
/// `chrono::DateTime::from_timestamp` makes of `secs` and `nanos`. The text is
/// named, not described; there is none exactly where chrono has no such instant.
#[verifier::external_body]
fn render_rfc3339(secs: i64, nanos: u32) -> (text: Option<String>)
    ensures
        match text {
            Some(t) => rfc3339_text(secs, nanos) == Some(t@),
            None => rfc3339_text(secs, nanos) is None,
        },
{
    match chrono::DateTime::from_timestamp(secs, nanos) {
        Some(instant) => Some(instant.to_rfc3339()),
        None => None,
    }
}

/// `chrono::DateTime::parse_from_rfc3339`, its result read as seconds and
/// nanoseconds on the UTC time line. The instant is named, not described; there
/// is none exactly where chrono rejects the text.
#[verifier::external_body]
fn read_rfc3339(text: &str) -> (instant: Option<Timestamp>)
    ensures
        match instant {
            Some(t) => rfc3339_instant(text@) == Some((t.secs, t.nanos)),
            None => rfc3339_instant(text@) is None,
        },
{
    match chrono::DateTime::parse_from_rfc3339(text) {
        Ok(t) => Some(Timestamp { secs: t.timestamp(), nanos: t.timestamp_subsec_nanos() }),
        Err(_) => None,
    }
}

/// The instant that a text denotes, as a `Timestamp`.
pub open spec fn parsed_instant(text: Seq<char>) -> Option<Timestamp> {
    match rfc3339_instant(text) {
        Some(pair) => Some(Timestamp { secs: pair.0, nanos: pair.1 }),
        None => None,
    }
}

impl Timestamp {
    /// Is this instant the same as `other` or later?
    pub open spec fn spec_at_or_after(self, other: Timestamp) -> bool {
        self.secs > other.secs || (self.secs == other.secs && self.nanos >= other.nanos)
    }

    /// Is this instant the same as `other` or later?
    #[verifier::when_used_as_spec(spec_at_or_after)]
    pub fn at_or_after(self, other: Timestamp) -> (later: bool)
        ensures
            later == self.spec_at_or_after(other),
    {
        self.secs > other.secs || (self.secs == other.secs && self.nanos >= other.nanos)
    }

    /// Is this instant later than `other`?
    pub open spec fn spec_after(self, other: Timestamp) -> bool {
        self.secs > other.secs || (self.secs == other.secs && self.nanos > other.nanos)
    }

    /// Is this instant later than `other`?
    #[verifier::when_used_as_spec(spec_after)]
    pub fn after(self, other: Timestamp) -> (later: bool)
        ensures
            later == self.spec_after(other),
    {
        self.secs > other.secs || (self.secs == other.secs && self.nanos > other.nanos)
    }

    /// The text of this instant, if the calendar has it.
    pub open spec fn text(self) -> Option<Seq<char>> {
        rfc3339_text(self.secs, self.nanos)
    }

    /// The current time, as the system clock tells it: an instant of the calendar,
    /// whose text can be written, with less than a second's worth of nanoseconds.
    /// Two readings may differ, so no more is promised of one.
    pub fn now() -> (now: Timestamp)
        ensures
            now.text() is Some,
            now.nanos < 1_000_000_000,
    {
        clock_now()
    }

    /// Writes the instant as RFC 3339 text.
    pub fn to_rfc3339(self) -> (text: Option<String>)
        ensures
            match text {
                Some(t) => self.text() == Some(t@),
                None => self.text() is None,
            },
    {
        render_rfc3339(self.secs, self.nanos)
    }

    /// Reads an instant from RFC 3339 text.
    pub fn parse_rfc3339(text: &str) -> (instant: Option<Timestamp>)
        ensures
            instant == parsed_instant(text@),
    {
        read_rfc3339(text)
    }

    /// `chosen` if there is one, else `fallback`.
    pub fn or_at(chosen: Option<Timestamp>, fallback: Timestamp) -> (instant: Timestamp)
        ensures
            instant == (match chosen {
                Some(t) => t,
                None => fallback,
            }),
    {
        match chosen {
            Some(t) => t,
            None => fallback,
        }
    }
}

/// The order on instants is total: of two instants, one is at or after the other,
/// and two instants that are each at or after the other are the same. The later
/// of two instants is the one that is at or after the other without being it.
pub proof fn lemma_instants_totally_ordered(a: Timestamp, b: Timestamp)
    ensures
        a.spec_at_or_after(b) || b.spec_at_or_after(a),
        a.spec_at_or_after(b) && b.spec_at_or_after(a) ==> a == b,
        a.spec_after(b) <==> !b.spec_at_or_after(a),
        a.spec_after(b) <==> a.spec_at_or_after(b) && a != b,
{
}

} // verus!
