//! Instants on the UTC time line, and the calls into `chrono` that read the
//! clock and convert between instants and RFC 3339 text.

use vstd::prelude::*;

verus! {

/// Distance between two consecutive seconds on the scale of
/// [`Timestamp::instant`]. It is larger than any nanosecond field, so the
/// scale orders instants by second first.
pub const TICKS_PER_SECOND: u64 = 0x1_0000_0000;

/// An instant: whole seconds since the Unix epoch, and the nanoseconds into
/// that second. During a leap second the nanosecond field runs past one
/// billion, as it does in `chrono`.
#[derive(Clone, Copy, Debug, PartialEq, Eq, Hash, Structural)]
pub struct Timestamp {
    pub secs: i64,
    pub nanos: u32,
}

impl Timestamp {
    /// The position of this instant on one integer scale. Two timestamps
    /// compare on it as their `(secs, nanos)` pairs compare.
    pub open spec fn instant(self) -> int {
        self.secs as int * TICKS_PER_SECOND as int + self.nanos as int
    }

    /// The position on the scale that lies `secs` seconds before this instant.
    pub open spec fn instant_back(self, secs: int) -> int {
        self.instant() - secs * TICKS_PER_SECOND as int
    }

    /// The instant `nanos` nanoseconds into second `secs`.
    pub fn new(secs: i64, nanos: u32) -> (t: Timestamp)
        ensures
            t.secs == secs,
            t.nanos == nanos,
    {
        Timestamp { secs, nanos }
    }

    /// Whether this instant lies strictly before `other`.
    pub fn is_before(&self, other: &Timestamp) -> (r: bool)
        ensures
            r == (self.instant() < other.instant()),
    {
        self.secs < other.secs || (self.secs == other.secs && self.nanos < other.nanos)
    }

    /// Whether this instant is later than `secs` seconds before `now`.
    pub fn is_newer_than(&self, now: &Timestamp, secs: i64) -> (r: bool)
        ensures
            r == (self.instant() > now.instant_back(secs as int)),
    {
        let mine: i128 = self.secs as i128;
        let edge: i128 = now.secs as i128 - secs as i128;
        mine > edge || (mine == edge && self.nanos > now.nanos)
    }

    /// Whether this instant is no earlier than `minutes` minutes before `now`.
    pub fn is_within_minutes(&self, now: &Timestamp, minutes: i64) -> (r: bool)
        ensures
            r == (self.instant() >= now.instant_back(minutes as int * 60)),
    {
        let mine: i128 = self.secs as i128;
        let edge: i128 = now.secs as i128 - minutes as i128 * 60;
        mine > edge || (mine == edge && self.nanos >= now.nanos)
    }

    /// Whether this instant is no earlier than `secs` seconds before `now`.
    pub fn is_within(&self, now: &Timestamp, secs: i64) -> (r: bool)
        ensures
            r == (self.instant() >= now.instant_back(secs as int)),
    {
        let mine: i128 = self.secs as i128;
        let edge: i128 = now.secs as i128 - secs as i128;
        mine > edge || (mine == edge && self.nanos >= now.nanos)
    }
}

/// Two timestamps are the same value exactly when they sit at the same
/// position of the scale.
pub proof fn lemma_instant_injective(a: Timestamp, b: Timestamp)
    ensures
        (a.instant() == b.instant()) <==> a == b,
{
}

/// The instant that an RFC 3339 date-and-time text denotes, if it is one.
pub uninterp spec fn rfc3339_instant(text: Seq<char>) -> Option<Timestamp>;

/// The RFC 3339 text of an instant, if the calendar of `chrono` reaches it.
pub uninterp spec fn rfc3339_text(t: Timestamp) -> Option<Seq<char>>;

/// `chrono::DateTime::parse_from_rfc3339`, with the result moved to UTC and
/// read as seconds and nanoseconds. The contract only names the result: the
/// same text always gives the same instant, or none when `chrono` rejects it.
#[verifier::external_body]
pub(crate) fn parse_rfc3339(text: &str) -> (r: Option<Timestamp>)
    ensures
        r == rfc3339_instant(text@),
{
    match chrono::DateTime::parse_from_rfc3339(text) {
        Ok(at) => {
            let utc = at.with_timezone(&chrono::Utc);
            Some(Timestamp { secs: utc.timestamp(), nanos: utc.timestamp_subsec_nanos() })
        },
        Err(_) => None,
    }
}

/// `chrono::DateTime::to_rfc3339` on the UTC date-time that
/// `chrono::DateTime::from_timestamp` builds. The contract only names the
/// result; there is none where `from_timestamp` refuses the fields.
#[verifier::external_body]
pub(crate) fn format_rfc3339(t: Timestamp) -> (r: Option<String>)
    ensures
        match r {
            Some(text) => rfc3339_text(t) == Some(text@),
            None => rfc3339_text(t) is None,
        },
{
    match chrono::DateTime::from_timestamp(t.secs, t.nanos) {
        Some(at) => Some(at.to_rfc3339()),
        None => None,
    }
}

/// `chrono::Utc::now`, read as seconds and nanoseconds. Nothing is promised of
/// the reading. `chrono` stops the program if the system clock stands before
/// the Unix epoch.
#[verifier::external_body]
pub(crate) fn current_time() -> (now: Timestamp) {
    let at = chrono::Utc::now();
    Timestamp { secs: at.timestamp(), nanos: at.timestamp_subsec_nanos() }
}

} // verus!
