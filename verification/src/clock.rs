//! Instants and their ISO-8601 text.

use vstd::prelude::*;

verus! {

/// An instant in UTC: whole seconds since 1970-01-01T00:00:00Z, and the
/// nanoseconds past that second.
#[derive(Clone, Copy, Debug, PartialEq, Eq, Structural)]
pub struct Timestamp {
    pub secs: i64,
    pub nanos: u32,
}

/// The RFC 3339 text that `chrono` writes for the UTC instant `secs`
/// seconds and `nanos` nanoseconds after the epoch, or `None` where
/// `chrono` cannot represent that instant.
pub uninterp spec fn rfc3339_utc(secs: int, nanos: int) -> Option<Seq<char>>;

/// Calls `chrono::DateTime::from_timestamp` and, on the instant it gives,
/// `chrono::DateTime::<Utc>::to_rfc3339`. Both depend on their arguments
/// alone; the contract gives their combined result a name and claims
/// nothing else about it.
#[verifier::external_body]
fn format_rfc3339(secs: i64, nanos: u32) -> (r: Option<String>)
    ensures
        r.deep_view() == rfc3339_utc(secs as int, nanos as int),
{
    match chrono::DateTime::from_timestamp(secs, nanos) {
        Some(instant) => Some(instant.to_rfc3339()),
        None => None,
    }
}

/// Reads the system clock with `std::time::SystemTime::now`, converts it
/// with `chrono`'s `From<SystemTime> for DateTime<Utc>`, and takes it apart
/// with `DateTime::timestamp` and `DateTime::timestamp_subsec_nanos`.
/// The instant differs from call to call. `chrono` documents that
/// `from_timestamp` gives back any instant from these two parts, which is
/// all the contract claims.
#[verifier::external_body]
fn read_system_clock() -> (r: Timestamp)
    ensures
        rfc3339_utc(r.secs as int, r.nanos as int) is Some,
{
    let now: chrono::DateTime<chrono::Utc> = std::time::SystemTime::now().into();
    Timestamp { secs: now.timestamp(), nanos: now.timestamp_subsec_nanos() }
}

impl Timestamp {
    /// Whether this instant can be written down.
    pub open spec fn representable(self) -> bool {
        rfc3339_utc(self.secs as int, self.nanos as int) is Some
    }

    /// The text of this instant, where it has one.
    pub open spec fn text(self) -> Seq<char> {
        rfc3339_utc(self.secs as int, self.nanos as int).unwrap()
    }

    pub fn new(secs: i64, nanos: u32) -> (r: Timestamp)
        ensures
            r == (Timestamp { secs, nanos }),
    {
        Timestamp { secs, nanos }
    }

    /// The current instant. It can always be written down.
    pub fn now() -> (r: Timestamp)
        ensures
            r.representable(),
    {
        read_system_clock()
    }

    /// This instant as RFC 3339 text, or `None` where it is out of the
    /// range of representable instants.
    pub fn to_rfc3339(&self) -> (r: Option<String>)
        ensures
            r.deep_view() == rfc3339_utc(self.secs as int, self.nanos as int),
    {
        format_rfc3339(self.secs, self.nanos)
    }
}

} // verus!
