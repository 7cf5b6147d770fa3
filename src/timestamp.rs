//! Instants in UTC, as whole seconds since the Unix epoch and a sub-second
//! nanosecond count, and their parsing from RFC 3339 text.

use vstd::prelude::*;

verus! {

/// An instant in UTC: `secs` whole seconds after 1970-01-01T00:00:00Z plus
/// `nanos` nanoseconds. During a leap second `nanos` may exceed 999_999_999,
/// as chrono represents it; instants still order by `(secs, nanos)`.
#[derive(Clone, Copy, Debug, PartialEq, Eq, Structural)]
pub struct Timestamp {
    pub secs: i64,
    pub nanos: u32,
}

/// `a` is at or before `b`.
pub open spec fn ts_le(a: Timestamp, b: Timestamp) -> bool {
    a.secs < b.secs || (a.secs == b.secs && a.nanos <= b.nanos)
}

/// `a` is strictly before `b`.
pub open spec fn ts_lt(a: Timestamp, b: Timestamp) -> bool {
    a.secs < b.secs || (a.secs == b.secs && a.nanos < b.nanos)
}

/// `t` lies in the closed window `[from, to]`.
pub open spec fn in_window(t: Timestamp, from: Timestamp, to: Timestamp) -> bool {
    ts_le(from, t) && ts_le(t, to)
}

/// Both ends of a window lie in it; every instant before its start or after
/// its end lies outside it.
pub proof fn lemma_window_ends_inclusive(from: Timestamp, to: Timestamp, t: Timestamp)
    requires
        ts_le(from, to),
    ensures
        in_window(from, from, to),
        in_window(to, from, to),
        ts_lt(t, from) ==> !in_window(t, from, to),
        ts_lt(to, t) ==> !in_window(t, from, to),
{
}

/// The instant that chrono reads from RFC 3339 text, if it reads one.
pub uninterp spec fn rfc3339_instant(s: Seq<char>) -> Option<Timestamp>;

/// Relies on chrono's `DateTime::parse_from_rfc3339`, which reads a date, a
/// time and an offset; `timestamp` and `timestamp_subsec_nanos` give the
/// instant in UTC. The result depends on the text alone.
#[verifier::external_body]
fn chrono_parse_rfc3339(s: &str) -> (r: Option<Timestamp>)
    ensures
        r == rfc3339_instant(s@),
{
    match chrono::DateTime::parse_from_rfc3339(s) {
        Ok(d) => Some(Timestamp { secs: d.timestamp(), nanos: d.timestamp_subsec_nanos() }),
        Err(_) => None,
    }
}

impl Timestamp {
    /// Reads an RFC 3339 instant such as `2019-01-02T03:04:05Z`.
    pub fn parse_rfc3339(s: &str) -> (r: Option<Timestamp>)
        ensures
            r == rfc3339_instant(s@),
    {
        chrono_parse_rfc3339(s)
    }

    /// Whether `self` is at or before `other`.
    pub fn at_or_before(&self, other: &Timestamp) -> (r: bool)
        ensures
            r == ts_le(*self, *other),
    {
        self.secs < other.secs || (self.secs == other.secs && self.nanos <= other.nanos)
    }

    /// Whether `self` lies in the closed window `[from, to]`; both ends count.
    pub fn within(&self, from: &Timestamp, to: &Timestamp) -> (r: bool)
        ensures
            r == in_window(*self, *from, *to),
    {
        from.at_or_before(self) && self.at_or_before(to)
    }
}

} // verus!
