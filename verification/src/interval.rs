//! Half-open time intervals `[start, end)` and their pairwise algebra.

use vstd::prelude::*;

use crate::instant::Duration;
use crate::instant::Instant;
use crate::instant::MAX_TS;
use crate::instant::MIN_TS;
use crate::instant::instant_of_rfc3339;
use crate::instant::instant_to_rfc3339;
use crate::instant::lemma_ts_order;
use crate::instant::rfc3339_of;
use vstd::string::StrSliceExecFns;
use vstd::string::StringExecFns;

verus! {

/// The reason a textual range failed to be read.
#[derive(Clone, Copy, Debug, PartialEq, Eq, Structural)]
pub enum TimeIntervalError {
    /// The text is not two RFC 3339 timestamps joined by a single `/`.
    ParseError(),
}

/// A record exposing a timestamp and a duration, standing for the interval
/// `[timestamp, timestamp + duration)`.
#[derive(Clone, Copy, Debug, PartialEq, Eq, Structural)]
pub struct Event {
    /// When the event began.
    pub timestamp: Instant,
    /// How long the event lasted.
    pub duration: Duration,
}

/// Position `k` holds the one and only `/` of `s`, so that splitting `s`
/// on `/` yields exactly the two segments around `k`.
pub open spec fn is_only_slash(s: Seq<char>, k: int) -> bool {
    &&& 0 <= k < s.len()
    &&& s[k] == '/'
    &&& forall|j: int| 0 <= j < s.len() && j != k ==> s[j] != '/'
}

/// Two positions that each hold the only `/` of `s` are the same position.
pub proof fn lemma_only_slash_unique(s: Seq<char>, k1: int, k2: int)
    requires
        is_only_slash(s, k1),
        is_only_slash(s, k2),
    ensures
        k1 == k2,
{
    if k1 != k2 {
        assert(s[k2] != '/');
        assert(false);
    }
}

/// The earlier of two instants; ties keep the first argument.
pub open spec fn instant_min(a: Instant, b: Instant) -> Instant {
    if a.ts() <= b.ts() {
        a
    } else {
        b
    }
}

/// The later of two instants; ties keep the first argument.
pub open spec fn instant_max(a: Instant, b: Instant) -> Instant {
    if a.ts() >= b.ts() {
        a
    } else {
        b
    }
}

/// An immutable pair of instants, read as the half-open interval
/// `[start, end)`.  Construction does not require `start <= end`; an
/// inverted interval merely has a negative duration.
#[derive(Clone, Copy, Debug, PartialEq, Eq, Structural)]
pub struct TimeInterval {
    /// The (included) first instant of the interval.
    pub start: Instant,
    /// The (excluded) first instant past the interval.
    pub end: Instant,
}

impl TimeInterval {
    /// Both endpoints are well-formed instants.
    pub open spec fn wf(self) -> bool {
        self.start.wf() && self.end.wf()
    }

    /// Stores both instants verbatim; no ordering check.
    pub fn new(start: Instant, end: Instant) -> (r: TimeInterval)
        ensures
            r == (TimeInterval { start, end }),
    {
        TimeInterval { start, end }
    }

    /// The stored first instant.
    pub fn start(&self) -> (r: &Instant)
        ensures
            *r == self.start,
    {
        &self.start
    }

    /// The stored first instant past the interval.
    pub fn end(&self) -> (r: &Instant)
        ensures
            *r == self.end,
    {
        &self.end
    }

    /// `end - start`; negative when the interval is inverted.
    pub fn duration(&self) -> (d: Duration)
        requires
            self.wf(),
        ensures
            d.wf(),
            d.value() == self.end.ts() - self.start.ts(),
    {
        if self.end.nanos >= self.start.nanos {
            Duration { secs: self.end.secs - self.start.secs, nanos: self.end.nanos - self.start.nanos }
        } else {
            Duration {
                secs: self.end.secs - self.start.secs - 1,
                nanos: 1_000_000_000 + self.end.nanos - self.start.nanos,
            }
        }
    }

    /// The separation of two intervals: the interval strictly between them
    /// when one ends strictly before the other starts, and `None` when they
    /// touch or overlap.
    pub open spec fn gap_spec(self, other: TimeInterval) -> Option<TimeInterval> {
        if self.end.ts() < other.start.ts() {
            Some(TimeInterval { start: self.end, end: other.start })
        } else if other.end.ts() < self.start.ts() {
            Some(TimeInterval { start: other.end, end: self.start })
        } else {
            None
        }
    }

    /// The join of two intervals: their convex hull when they touch or
    /// overlap, and `None` when a non-empty gap separates them.
    pub open spec fn union_spec(self, other: TimeInterval) -> Option<TimeInterval> {
        if self.gap_spec(other) is Some {
            None
        } else {
            Some(
                TimeInterval {
                    start: instant_min(self.start, other.start),
                    end: instant_max(self.end, other.end),
                },
            )
        }
    }

    /// The common part of two intervals when it is non-empty, else `None`.
    /// Intervals that merely touch at an endpoint have an empty common part.
    pub open spec fn intersection_spec(self, other: TimeInterval) -> Option<TimeInterval> {
        let lo = instant_max(self.start, other.start);
        let hi = instant_min(self.end, other.end);
        if lo.ts() < hi.ts() {
            Some(TimeInterval { start: lo, end: hi })
        } else {
            None
        }
    }

    /// If the intervals are separated by a non-zero gap, the gap as a new
    /// interval, else `None`.  Exactly adjacent intervals have no gap.
    pub fn gap(&self, other: &TimeInterval) -> (r: Option<TimeInterval>)
        requires
            self.wf(),
            other.wf(),
        ensures
            r == self.gap_spec(*other),
    {
        if self.end.lt(&other.start) {
            Some(TimeInterval { start: self.end, end: other.start })
        } else if other.end.lt(&self.start) {
            Some(TimeInterval { start: other.end, end: self.start })
        } else {
            None
        }
    }

    /// Joins two intervals into their convex hull if they have no gap,
    /// else `None`.  Exactly adjacent intervals do join.
    pub fn union(&self, other: &TimeInterval) -> (r: Option<TimeInterval>)
        requires
            self.wf(),
            other.wf(),
        ensures
            r == self.union_spec(*other),
    {
        match self.gap(other) {
            Some(_) => None,
            None => {
                let start = if other.start.lt(&self.start) {
                    other.start
                } else {
                    self.start
                };
                let end = if self.end.lt(&other.end) {
                    other.end
                } else {
                    self.end
                };
                Some(TimeInterval { start, end })
            },
        }
    }

    /// The intersection of two intervals, `None` when it would be empty.
    /// Exactly adjacent intervals do not intersect.
    pub fn intersection(&self, other: &TimeInterval) -> (r: Option<TimeInterval>)
        requires
            self.wf(),
            other.wf(),
        ensures
            r == self.intersection_spec(*other),
    {
        let last_start = if self.start.lt(&other.start) {
            other.start
        } else {
            self.start
        };
        let first_end = if other.end.lt(&self.end) {
            other.end
        } else {
            self.end
        };
        if last_start.lt(&first_end) {
            Some(TimeInterval { start: last_start, end: first_end })
        } else {
            None
        }
    }

    /// What a textual range denotes: where the text holds exactly one `/`,
    /// the interval whose endpoints the two segments around it denote as
    /// RFC 3339 timestamps, and a parse error where the `/` count is not
    /// one or either segment does not denote a well-formed instant.
    pub open spec fn parse_spec(s: Seq<char>) -> Result<TimeInterval, TimeIntervalError> {
        if exists|k: int| is_only_slash(s, k) {
            let k = choose|k: int| is_only_slash(s, k);
            match (instant_of_rfc3339(s.subrange(0, k)), instant_of_rfc3339(
                s.subrange(k + 1, s.len() as int),
            )) {
                (Some(a), Some(b)) => Ok(TimeInterval { start: a, end: b }),
                _ => Err(TimeIntervalError::ParseError()),
            }
        } else {
            Err(TimeIntervalError::ParseError())
        }
    }

    /// Parses `"<start>/<end>"`: two RFC 3339 timestamps joined by a single
    /// `/`, both normalized to UTC.  No ordering of the two instants is
    /// demanded.  Fails exactly where [`TimeInterval::parse_spec`] says so.
    pub fn new_from_string(period: &str) -> (r: Result<TimeInterval, TimeIntervalError>)
        ensures
            r == Self::parse_spec(period@),
            r matches Ok(iv) ==> iv.wf(),
    {
        let len = period.unicode_len();
        let mut first: Option<usize> = None;
        let mut second: Option<usize> = None;
        let mut i: usize = 0;
        while i < len
            invariant
                len == period@.len(),
                i <= len,
                first is None ==> second is None && forall|j: int|
                    0 <= j < i ==> period@[j] != '/',
                first matches Some(k) ==> k < i && period@[k as int] == '/' && (second is None
                    ==> forall|j: int| 0 <= j < i && j != k ==> period@[j] != '/'),
                second matches Some(k2) ==> (first matches Some(k1) && k1 < k2 < i
                    && period@[k2 as int] == '/'),
            decreases len - i,
        {
            if period.get_char(i) == '/' {
                if first.is_none() {
                    first = Some(i);
                } else if second.is_none() {
                    second = Some(i);
                }
            }
            i += 1;
        }
        match (first, second) {
            (Some(k), None) => {
                proof {
                    assert(is_only_slash(period@, k as int));
                    let kk = choose|kk: int| is_only_slash(period@, kk);
                    lemma_only_slash_unique(period@, kk, k as int);
                }
                let a = period.substring_char(0, k);
                let b = period.substring_char(k + 1, len);
                match (Instant::parse_rfc3339(a), Instant::parse_rfc3339(b)) {
                    (Some(x), Some(y)) => Ok(TimeInterval { start: x, end: y }),
                    _ => Err(TimeIntervalError::ParseError()),
                }
            },
            _ => {
                proof {
                    assert forall|k: int| !is_only_slash(period@, k) by {
                        if 0 <= k < period@.len() && period@[k] == '/' {
                            match (first, second) {
                                (Some(k1), Some(k2)) => {
                                    if k != k1 {
                                        assert(period@[k1 as int] == '/');
                                    } else {
                                        assert(period@[k2 as int] == '/');
                                    }
                                },
                                _ => {},
                            }
                        }
                    }
                }
                Err(TimeIntervalError::ParseError())
            },
        }
    }

    /// The interval that an event covers: from its timestamp for the length
    /// of its duration.  `None` exactly where the far endpoint would fall
    /// outside the well-formed instant range.
    pub fn from_event(e: &Event) -> (r: Option<TimeInterval>)
        requires
            e.timestamp.wf(),
            e.duration.wf(),
        ensures
            r is Some <==> MIN_TS * 1_000_000_000 <= e.timestamp.ts() + e.duration.value()
                <= MAX_TS * 1_000_000_000 + 999_999_999,
            r matches Some(iv) ==> iv.wf() && iv.start == e.timestamp && iv.end.ts()
                == e.timestamp.ts() + e.duration.value(),
    {
        let mut nsec: u32 = e.timestamp.nanos + e.duration.nanos;
        let mut carry: i64 = 0;
        if nsec >= 1_000_000_000 {
            nsec = nsec - 1_000_000_000;
            carry = 1;
        }
        let total: i128 = e.timestamp.secs as i128 + e.duration.secs as i128 + carry as i128;
        if MIN_TS as i128 <= total && total <= MAX_TS as i128 {
            let end = Instant { secs: total as i64, nanos: nsec };
            Some(TimeInterval { start: e.timestamp, end })
        } else {
            None
        }
    }

    /// The textual rendering of an interval: the RFC 3339 renderings of its
    /// endpoints joined by a single `/`.
    pub open spec fn format_spec(self) -> Seq<char> {
        rfc3339_of(self.start.secs, self.start.nanos) + seq!['/'] + rfc3339_of(
            self.end.secs,
            self.end.nanos,
        )
    }

    /// Renders the interval as `"<start>/<end>"` with both endpoints in
    /// RFC 3339 form at offset `+00:00`.  Parsing the rendering gives the
    /// interval back: the textual format is lossless.
    pub fn to_string(&self) -> (r: String)
        requires
            self.wf(),
        ensures
            r@ == self.format_spec(),
            Self::parse_spec(r@) == Ok::<TimeInterval, TimeIntervalError>(*self),
    {
        let mut r = instant_to_rfc3339(&self.start);
        let b = instant_to_rfc3339(&self.end);
        let ghost sa = rfc3339_of(self.start.secs, self.start.nanos);
        let ghost sb = rfc3339_of(self.end.secs, self.end.nanos);
        proof {
            reveal_strlit("/");
        }
        r.append("/");
        r.append(b.as_str());
        proof {
            let k = sa.len() as int;
            assert(r@ =~= sa + seq!['/'] + sb);
            assert(r@[k] == '/');
            assert forall|j: int| 0 <= j < r@.len() && j != k implies r@[j] != '/' by {
                if j < k {
                    assert(r@[j] == sa[j]);
                } else {
                    assert(r@[j] == sb[j - k - 1]);
                }
            }
            assert(is_only_slash(r@, k));
            let kk = choose|kk: int| is_only_slash(r@, kk);
            lemma_only_slash_unique(r@, kk, k);
            assert(r@.subrange(0, k) =~= sa);
            assert(r@.subrange(k + 1, r@.len() as int) =~= sb);
            assert(instant_of_rfc3339(sa) == Some(self.start));
            assert(instant_of_rfc3339(sb) == Some(self.end));
        }
        r
    }

    /// Whether the two intervals intersect in a non-empty interval.
    pub fn intersects(&self, other: &TimeInterval) -> (r: bool)
        requires
            self.wf(),
            other.wf(),
        ensures
            r == (self.intersection_spec(*other) is Some),
    {
        self.intersection(other).is_some()
    }
}

/// Law: the separation of two intervals does not depend on the order of
/// the arguments.  The one exception is a pair in which each interval ends
/// before the other starts — possible only when one of them is inverted
/// (`end` before `start`) — and such pairs are excluded.
pub proof fn lemma_gap_symmetric(a: TimeInterval, b: TimeInterval)
    requires
        !(a.end.ts() < b.start.ts() && b.end.ts() < a.start.ts()),
    ensures
        a.gap_spec(b) == b.gap_spec(a),
{
}

/// Law: the join of two well-formed intervals does not depend on the order
/// of the arguments.
pub proof fn lemma_union_symmetric(a: TimeInterval, b: TimeInterval)
    requires
        a.wf(),
        b.wf(),
    ensures
        a.union_spec(b) == b.union_spec(a),
{
    lemma_ts_order(a.start, b.start);
    lemma_ts_order(a.end, b.end);
}

/// Law: the intersection of two well-formed intervals does not depend on
/// the order of the arguments.
pub proof fn lemma_intersection_symmetric(a: TimeInterval, b: TimeInterval)
    requires
        a.wf(),
        b.wf(),
    ensures
        a.intersection_spec(b) == b.intersection_spec(a),
{
    lemma_ts_order(a.start, b.start);
    lemma_ts_order(a.end, b.end);
}

/// Law: whether two well-formed intervals intersect does not depend on the
/// order of the arguments.
pub proof fn lemma_intersects_symmetric(a: TimeInterval, b: TimeInterval)
    requires
        a.wf(),
        b.wf(),
    ensures
        (a.intersection_spec(b) is Some) == (b.intersection_spec(a) is Some),
{
    lemma_intersection_symmetric(a, b);
}

/// Law: two properly ordered intervals that touch exactly at one instant
/// do not intersect, have no gap, and join into the enclosing interval.
pub proof fn lemma_adjacent(a: TimeInterval, b: TimeInterval)
    requires
        a.wf(),
        b.wf(),
        a.start.ts() <= a.end.ts(),
        b.start.ts() <= b.end.ts(),
        a.end == b.start,
    ensures
        a.intersection_spec(b) is None,
        a.gap_spec(b) is None,
        a.union_spec(b) == Some(TimeInterval { start: a.start, end: b.end }),
{
    lemma_ts_order(a.start, b.start);
    lemma_ts_order(a.end, b.end);
}

/// Law: of two properly ordered intervals where the first ends strictly
/// before the second starts, the gap is exactly the interval between them,
/// and they neither join nor intersect.
pub proof fn lemma_disjoint_with_gap(a: TimeInterval, b: TimeInterval)
    requires
        a.start.ts() <= a.end.ts(),
        a.end.ts() < b.start.ts(),
        b.start.ts() <= b.end.ts(),
    ensures
        a.gap_spec(b) == Some(TimeInterval { start: a.end, end: b.start }),
        a.union_spec(b) is None,
        a.intersection_spec(b) is None,
{
}

/// Law: of two intervals where the second starts strictly within the first
/// and ends strictly after it, the intersection is exactly the common part,
/// the join is exactly the enclosing interval, and there is no gap.
pub proof fn lemma_overlap(a: TimeInterval, b: TimeInterval)
    requires
        a.start.ts() < b.start.ts(),
        b.start.ts() < a.end.ts(),
        a.end.ts() < b.end.ts(),
    ensures
        a.intersection_spec(b) == Some(TimeInterval { start: b.start, end: a.end }),
        a.union_spec(b) == Some(TimeInterval { start: a.start, end: b.end }),
        a.gap_spec(b) is None,
{
}

} // verus!
