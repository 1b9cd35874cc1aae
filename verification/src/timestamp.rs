//! Points in time, as seconds and nanoseconds since the UNIX epoch (UTC).

use vstd::prelude::*;

verus! {

/// An instant in UTC: whole seconds since 1970-01-01T00:00:00Z plus a
/// nanosecond part.
#[derive(Debug, Clone, Copy, PartialEq, Eq, Structural)]
pub struct Timestamp {
    pub secs: i64,
    pub nanos: u32,
}

/// `a` lies strictly before `b`.
pub open spec fn ts_before(a: Timestamp, b: Timestamp) -> bool {
    a.secs < b.secs || (a.secs == b.secs && a.nanos < b.nanos)
}

impl Timestamp {
    /// Whether `self` lies strictly before `other`.
    pub fn before(&self, other: &Timestamp) -> (r: bool)
        ensures
            r == ts_before(*self, *other),
    {
        self.secs < other.secs || (self.secs == other.secs && self.nanos < other.nanos)
    }
}

/// What `chrono` makes of an RFC 3339 text: the instant it denotes, or the
/// text of its parse error.
pub uninterp spec fn rfc3339_parse(text: Seq<char>) -> Result<Timestamp, Seq<char>>;

/// Parse an RFC 3339 timestamp with `chrono::DateTime::parse_from_rfc3339`
/// and convert it to UTC seconds + nanoseconds; on refusal, the `Display`
/// text of `chrono`'s error. The contract only names the outcome.
#[verifier::external_body]
pub(crate) fn parse_rfc3339(text: &str) -> (r: Result<Timestamp, String>)
    ensures
        r is Ok <==> rfc3339_parse(text@) is Ok,
        r matches Ok(t) ==> rfc3339_parse(text@)->Ok_0 == t,
        r matches Err(e) ==> rfc3339_parse(text@)->Err_0 == e@,
{
    match chrono::DateTime::parse_from_rfc3339(text) {
        Ok(dt) => Ok(Timestamp { secs: dt.timestamp(), nanos: dt.timestamp_subsec_nanos() }),
        Err(e) => Err(e.to_string()),
    }
}

} // verus!
