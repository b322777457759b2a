//! UTC instants with nanosecond precision, and signed durations between them.
//!
//! An [`Instant`] is stored as whole seconds since the Unix epoch plus a
//! sub-second nanosecond count, the same decomposition that chrono's
//! `timestamp()` / `timestamp_subsec_nanos()` accessors expose.  A
//! well-formed instant lies in the four-digit-year range `0000-01-01T00:00:00Z`
//! to `9999-12-31T23:59:59.999999999Z`, the range that an RFC 3339 timestamp
//! can denote directly.

use vstd::prelude::*;

verus! {

/// Unix timestamp of `0000-01-01T00:00:00Z`, the earliest well-formed second.
pub const MIN_TS: i64 = -62167219200;

/// Unix timestamp of `9999-12-31T23:59:59Z`, the latest well-formed second.
pub const MAX_TS: i64 = 253402300799;

/// A point in UTC time: whole seconds since the Unix epoch plus sub-second
/// nanoseconds.
#[derive(Clone, Copy, Debug, PartialEq, Eq, Structural)]
pub struct Instant {
    /// Whole seconds since `1970-01-01T00:00:00Z` (may be negative).
    pub secs: i64,
    /// Nanoseconds past the whole second.
    pub nanos: u32,
}

/// A signed elapsed time: whole seconds plus sub-second nanoseconds.
///
/// The value denoted is `secs * 1_000_000_000 + nanos` nanoseconds; a
/// negative quantity is held as a negative `secs` with a non-negative
/// sub-second part, as in chrono's `TimeDelta`.
#[derive(Clone, Copy, Debug, PartialEq, Eq, Structural)]
pub struct Duration {
    /// Whole seconds (may be negative).
    pub secs: i64,
    /// Nanoseconds past the whole second.
    pub nanos: u32,
}

impl Instant {
    /// The instant as a mathematical count of nanoseconds since the epoch.
    pub open spec fn ts(self) -> int {
        self.secs * 1_000_000_000 + self.nanos
    }

    /// Well-formedness: the sub-second part is a genuine fraction and the
    /// second lies in the RFC 3339 four-digit-year range.
    pub open spec fn wf(self) -> bool {
        &&& MIN_TS <= self.secs <= MAX_TS
        &&& self.nanos < 1_000_000_000
    }

    /// Builds an instant from its parts, rejecting values outside the
    /// well-formed range.
    pub fn new(secs: i64, nanos: u32) -> (r: Option<Instant>)
        ensures
            r is Some <==> (MIN_TS <= secs <= MAX_TS && nanos < 1_000_000_000),
            r matches Some(i) ==> i == (Instant { secs, nanos }) && i.wf(),
    {
        if MIN_TS <= secs && secs <= MAX_TS && nanos < 1_000_000_000 {
            Some(Instant { secs, nanos })
        } else {
            None
        }
    }

    /// Strict order on instants, agreeing with the order of `ts()`.
    pub fn lt(&self, other: &Instant) -> (r: bool)
        requires
            self.wf(),
            other.wf(),
        ensures
            r == (self.ts() < other.ts()),
    {
        proof {
            lemma_ts_order(*self, *other);
        }
        self.secs < other.secs || (self.secs == other.secs && self.nanos < other.nanos)
    }
}

impl Duration {
    /// The duration as a mathematical count of nanoseconds.
    pub open spec fn value(self) -> int {
        self.secs * 1_000_000_000 + self.nanos
    }

    /// Well-formedness: the sub-second part is a genuine fraction.
    pub open spec fn wf(self) -> bool {
        self.nanos < 1_000_000_000
    }
}

/// The instant that an RFC 3339 timestamp string denotes, normalized to UTC
/// and decomposed into whole seconds since the Unix epoch and sub-second
/// nanoseconds, or `None` where the string is not a valid RFC 3339 timestamp.
/// The result is a function of the characters alone.
pub uninterp spec fn rfc3339_instant(s: Seq<char>) -> Option<(i64, u32)>;

/// The RFC 3339 rendering of a well-formed instant: date and time in UTC
/// with a `+00:00` offset and the sub-second digits needed to hold `nanos`
/// exactly.  The result is a function of the two numbers alone.
pub uninterp spec fn rfc3339_of(secs: i64, nanos: u32) -> Seq<char>;

/// The instant a parsed RFC 3339 timestamp stands for, or `None` where the
/// string does not parse, denotes a second within a leap second, or lies
/// outside the well-formed four-digit-year UTC range.
pub open spec fn instant_of_rfc3339(s: Seq<char>) -> Option<Instant> {
    match rfc3339_instant(s) {
        Some(p) => {
            if MIN_TS <= p.0 <= MAX_TS && p.1 < 1_000_000_000 {
                Some(Instant { secs: p.0, nanos: p.1 })
            } else {
                None
            }
        },
        None => None,
    }
}

/// Relies on chrono's `DateTime::parse_from_rfc3339`, `with_timezone(&Utc)`,
/// and the accessors `timestamp` / `timestamp_subsec_nanos`: together they
/// turn an RFC 3339 string into the denoted UTC instant's second and
/// sub-second parts, a function of the characters alone.  The sub-second
/// part is below 2,000,000,000, reaching 1,000,000,000 only within a leap
/// second (chrono's documented leap-second handling).
#[verifier::external_body]
pub(crate) fn rfc3339_to_instant(s: &str) -> (r: Option<(i64, u32)>)
    ensures
        r == rfc3339_instant(s@),
        r matches Some(p) ==> p.1 < 2_000_000_000,
{
    match chrono::DateTime::parse_from_rfc3339(s) {
        Ok(dt) => {
            let dt = dt.with_timezone(&chrono::Utc);
            Some((dt.timestamp(), dt.timestamp_subsec_nanos()))
        },
        Err(_) => None,
    }
}

/// Relies on chrono's `DateTime::<Utc>::from_timestamp` and `to_rfc3339`:
/// for a second count in the four-digit-year range and a sub-second count
/// below one second, `from_timestamp` is documented to succeed and to
/// round-trip with `timestamp` / `timestamp_subsec_nanos`, and `to_rfc3339`
/// writes `YYYY-MM-DDTHH:MM:SS[.f]+00:00` — digits, `-`, `T`, `:`, `.` and
/// `+` only, never `/` — which `parse_from_rfc3339` reads back to the same
/// instant.
#[verifier::external_body]
pub(crate) fn instant_to_rfc3339(i: &Instant) -> (r: String)
    requires
        i.wf(),
    ensures
        r@ == rfc3339_of(i.secs, i.nanos),
        forall|k: int| 0 <= k < r@.len() ==> r@[k] != '/',
        rfc3339_instant(r@) == Some((i.secs, i.nanos)),
{
    match chrono::DateTime::<chrono::Utc>::from_timestamp(i.secs, i.nanos) {
        Some(dt) => dt.to_rfc3339(),
        None => String::new(),
    }
}

impl Instant {
    /// Parses a single RFC 3339 timestamp and normalizes it to UTC, within
    /// the well-formed range; `None` exactly where [`instant_of_rfc3339`]
    /// says so.
    pub fn parse_rfc3339(s: &str) -> (r: Option<Instant>)
        ensures
            r == instant_of_rfc3339(s@),
            r matches Some(i) ==> i.wf(),
    {
        match rfc3339_to_instant(s) {
            Some(p) => Instant::new(p.0, p.1),
            None => None,
        }
    }
}

/// The field-wise lexicographic order on well-formed instants is the order
/// of their nanosecond counts.
pub proof fn lemma_ts_order(a: Instant, b: Instant)
    requires
        a.wf(),
        b.wf(),
    ensures
        (a.ts() < b.ts()) == (a.secs < b.secs || (a.secs == b.secs && a.nanos < b.nanos)),
        (a.ts() == b.ts()) == (a.secs == b.secs && a.nanos == b.nanos),
{
    assert((a.ts() < b.ts()) == (a.secs < b.secs || (a.secs == b.secs && a.nanos < b.nanos)))
        by (nonlinear_arith)
        requires
            a.nanos < 1_000_000_000,
            b.nanos < 1_000_000_000,
            a.ts() == a.secs * 1_000_000_000 + a.nanos,
            b.ts() == b.secs * 1_000_000_000 + b.nanos,
    ;
    assert((a.ts() == b.ts()) == (a.secs == b.secs && a.nanos == b.nanos)) by (nonlinear_arith)
        requires
            a.nanos < 1_000_000_000,
            b.nanos < 1_000_000_000,
            a.ts() == a.secs * 1_000_000_000 + a.nanos,
            b.ts() == b.secs * 1_000_000_000 + b.nanos,
    ;
}

} // verus!
