//! Instants and spans of time, and how they are written.
use vstd::prelude::*;

verus! {

/// Nanoseconds in a second.
pub const NANOS_PER_SEC: u32 = 1_000_000_000;

/// First second that the four-digit years of RFC3339 do not reach.
pub const YEAR_10000: u64 = 253_402_300_800;

/// An instant, counted from the start of 1970 UTC.
#[derive(Debug, Clone, Copy, PartialEq, Eq, Structural)]
pub struct SystemTime {
    /// Whole seconds, negative before 1970.
    pub secs: i64,
    /// Nanoseconds past those seconds.
    pub nanos: u32,
}

/// A span of time.
#[derive(Debug, Clone, Copy, PartialEq, Eq, Structural)]
pub struct Duration {
    /// Whole seconds.
    pub secs: u64,
    /// Nanoseconds past those seconds.
    pub nanos: u32,
}

/// What `humantime::format_rfc3339_seconds` writes for an instant so many seconds after the start
/// of 1970.
pub uninterp spec fn rfc3339(secs: u64) -> Seq<char>;

/// What `humantime::parse_rfc3339` reads: the seconds after the start of 1970 and the nanoseconds
/// past them.
pub uninterp spec fn rfc3339_read(s: Seq<char>) -> Option<(u64, u32)>;

/// Calls `humantime::format_rfc3339_seconds`. The text depends on the seconds alone, and
/// `humantime::parse_rfc3339` reads them back from it.
#[verifier::external_body]
pub(crate) fn write_rfc3339(secs: u64) -> (r: String)
    requires
        secs < YEAR_10000,
    ensures
        r@ == rfc3339(secs),
        rfc3339_read(r@) == Some((secs, 0u32)),
{
    let at = std::time::UNIX_EPOCH + std::time::Duration::from_secs(secs);
    humantime::format_rfc3339_seconds(at).to_string()
}

/// Calls `humantime::parse_rfc3339`, which rejects years before 1970 and goes by the first nine digits
/// behind the second. The result depends on the text alone.
#[verifier::external_body]
pub(crate) fn read_rfc3339(s: &str) -> (r: Option<(u64, u32)>)
    ensures
        r == rfc3339_read(s@),
        r matches Some((secs, nanos)) ==> secs < YEAR_10000 && nanos < NANOS_PER_SEC,
{
    let at = humantime::parse_rfc3339(s).ok()?;
    let since = at.duration_since(std::time::UNIX_EPOCH).ok()?;
    Some((since.as_secs(), since.subsec_nanos()))
}

impl Duration {
    /// A span's fraction is less than a second.
    pub open spec fn valid(self) -> bool {
        self.nanos < NANOS_PER_SEC
    }

    /// The span in nanoseconds.
    pub open spec fn total(self) -> int {
        self.secs * NANOS_PER_SEC + self.nanos
    }

    /// Returns the whole milliseconds, at most as many as fit.
    pub fn millis(&self) -> (r: u64)
        requires
            self.valid(),
        ensures
            r == if self.total() / 1_000_000 > u64::MAX {
                u64::MAX as int
            } else {
                self.total() / 1_000_000
            },
    {
        let whole: u128 = self.secs as u128 * 1000 + (self.nanos / 1_000_000) as u128;
        assert(whole == self.total() / 1_000_000);
        if whole > u64::MAX as u128 {
            u64::MAX
        } else {
            whole as u64
        }
    }
}

impl SystemTime {
    /// An instant's fraction is less than a second.
    pub open spec fn valid(self) -> bool {
        self.nanos < NANOS_PER_SEC
    }

    /// Nanoseconds since the start of 1970, negative before it.
    pub open spec fn total(self) -> int {
        self.secs * NANOS_PER_SEC + self.nanos
    }

    /// Whether the instant lies in the years RFC3339 can write from 1970 on.
    pub open spec fn written(self) -> bool {
        0 <= self.secs < YEAR_10000
    }

    /// Returns the instant a span earlier, absent where it cannot be represented.
    pub fn checked_sub(self, span: Duration) -> (r: Option<SystemTime>)
        requires
            self.valid(),
            span.valid(),
        ensures
            r is Some <==> self.total() - span.total() >= i64::MIN * NANOS_PER_SEC,
            r matches Some(at) ==> at.valid() && at.total() == self.total() - span.total(),
    {
        let borrow: bool = self.nanos < span.nanos;
        let nanos: u32 = if borrow {
            self.nanos + (NANOS_PER_SEC - span.nanos)
        } else {
            self.nanos - span.nanos
        };
        let carried: i128 = if borrow {
            1
        } else {
            0
        };
        let secs: i128 = self.secs as i128 - span.secs as i128 - carried;
        if secs < i64::MIN as i128 {
            return None;
        }
        Some(SystemTime { secs: secs as i64, nanos })
    }

    /// Returns whether this instant is not before another.
    pub fn reaches(self, other: SystemTime) -> (r: bool)
        requires
            self.valid(),
            other.valid(),
        ensures
            r == (self.total() >= other.total()),
    {
        self.secs > other.secs || (self.secs == other.secs && self.nanos >= other.nanos)
    }
}

/// A second is a thousand million nanoseconds, and RFC3339 writes the years from 1970 to 9999.
pub proof fn law_how_time_is_counted(at: SystemTime, span: Duration)
    ensures
        at.total() == at.secs * 1_000_000_000 + at.nanos,
        span.total() == span.secs * 1_000_000_000 + span.nanos,
        at.written() <==> 0 <= at.secs && at.secs < 253_402_300_800,
        at.valid() <==> at.nanos < 1_000_000_000,
        span.valid() <==> span.nanos < 1_000_000_000,
{
}

} // verus!
