//! Instants on the UTC time line, and how far apart two of them are.

use vstd::prelude::*;

verus! {

/// Nanoseconds in one second.
pub const NANOS_PER_SEC: u32 = 1_000_000_000;

/// An instant in UTC: whole seconds since 1970-01-01T00:00:00Z, and the
/// nanoseconds that have passed since that second began.
#[derive(Clone, Copy, Debug, PartialEq, Eq, Structural)]
pub struct Timestamp {
    pub secs: i64,
    pub nanos: u32,
}

impl Timestamp {
    /// What every reading of the system clock looks like: whole seconds,
    /// and a fraction below one second.
    pub open spec fn is_clock_reading(self) -> bool {
        self.nanos < NANOS_PER_SEC
    }

    /// The instant as one number: nanoseconds since the epoch.
    pub open spec fn total_nanos(self) -> int {
        self.secs * 1_000_000_000 + self.nanos
    }

    /// Nanoseconds that lie between `earlier` and `self`; negative when
    /// `self` comes first.
    pub open spec fn nanos_since(self, earlier: Timestamp) -> int {
        self.total_nanos() - earlier.total_nanos()
    }

    /// Whether more than `secs` whole seconds lie between `earlier` and `self`.
    pub open spec fn is_more_than_secs_after(self, earlier: Timestamp, secs: int) -> bool {
        self.nanos_since(earlier) > secs * 1_000_000_000
    }

    /// The instant `nanos` nanoseconds after the start of second `secs`.
    pub fn new(secs: i64, nanos: u32) -> (t: Timestamp)
        ensures
            t.secs == secs,
            t.nanos == nanos,
    {
        Timestamp { secs, nanos }
    }

    /// Decides whether `self` lies more than `limit_secs` seconds after `earlier`.
    pub fn more_than_secs_after(&self, earlier: &Timestamp, limit_secs: i64) -> (later: bool)
        ensures
            later == self.is_more_than_secs_after(*earlier, limit_secs as int),
    {
        let whole: i128 = self.secs as i128 - earlier.secs as i128 - limit_secs as i128;
        let part: i128 = self.nanos as i128 - earlier.nanos as i128;
        assert(self.nanos_since(*earlier) - limit_secs * 1_000_000_000 == whole * 1_000_000_000
            + part) by (nonlinear_arith)
            requires
                whole == self.secs - earlier.secs - limit_secs,
                part == self.nanos - earlier.nanos,
                self.nanos_since(*earlier) == (self.secs * 1_000_000_000 + self.nanos) - (
                earlier.secs * 1_000_000_000 + earlier.nanos),
        ;
        whole * 1_000_000_000 + part > 0
    }
}

/// Reads the system clock with `std::time::SystemTime::now` and has chrono
/// place the reading on the UTC time line, through its conversion of a
/// `SystemTime` into a `DateTime<Utc>`.
///
/// Nothing is claimed about which instant comes back, only its shape: the
/// fraction of the second is below one second. A clock that stands before
/// the epoch gives negative seconds. The conversion panics only where the
/// clock stands outside the years that chrono can name, some 262,000 years
/// from now.
#[verifier::external_body]
pub(crate) fn current_time() -> (now: Timestamp)
    ensures
        now.is_clock_reading(),
{
    let now = chrono::DateTime::<chrono::Utc>::from(std::time::SystemTime::now());
    Timestamp { secs: now.timestamp(), nanos: now.timestamp_subsec_nanos() }
}

} // verus!
