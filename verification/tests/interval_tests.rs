use timeinterval::Duration;
use timeinterval::Event;
use timeinterval::Instant;
use timeinterval::TimeInterval;
use timeinterval::TimeIntervalError;

#[test]
fn test_timeinterval() {
    let start = Instant::parse_rfc3339("2000-01-01T00:00:00Z").unwrap();
    let end = Instant::parse_rfc3339("2000-01-02T00:00:00Z").unwrap();
    let period_str = "2000-01-01T00:00:00+00:00/2000-01-02T00:00:00+00:00";
    let duration = Duration { secs: 86400, nanos: 0 };
    let tp = TimeInterval::new(start, end);
    assert_eq!(tp.start(), &start);
    assert_eq!(tp.end(), &end);
    assert_eq!(tp.duration(), duration);
    assert_eq!(tp.to_string(), period_str);

    let tp = TimeInterval::new_from_string(period_str).unwrap();
    assert_eq!(tp.start(), &start);
    assert_eq!(tp.end(), &end);
    assert_eq!(tp.duration(), duration);
    assert_eq!(tp.to_string(), period_str);
}

#[test]
fn test_timeinterval_intersection() {
    // Check that two exactly adjacent events don't intersect
    let tp1 = TimeInterval::new(
        Instant::parse_rfc3339("2000-01-01T00:00:00Z").unwrap(),
        Instant::parse_rfc3339("2000-01-01T00:01:00Z").unwrap(),
    );
    let tp2 = TimeInterval::new(
        Instant::parse_rfc3339("2000-01-01T00:01:00Z").unwrap(),
        Instant::parse_rfc3339("2000-01-01T00:02:00Z").unwrap(),
    );
    assert!(!tp1.intersects(&tp2));
}

#[test]
fn test_instant_parse_normalizes_offset() {
    // The same instant written at two offsets parses to one UTC value.
    let a = Instant::parse_rfc3339("2000-01-01T01:00:00+01:00").unwrap();
    let b = Instant::parse_rfc3339("2000-01-01T00:00:00Z").unwrap();
    assert_eq!(a, b);
    assert_eq!(a.secs, 946684800);
    assert_eq!(a.nanos, 0);
}

#[test]
fn test_instant_parse_rejects() {
    assert!(Instant::parse_rfc3339("").is_none());
    assert!(Instant::parse_rfc3339("2000-01-01").is_none());
    assert!(Instant::parse_rfc3339("2000-13-01T00:00:00Z").is_none());
    // A leap second does not denote a well-formed instant here.
    assert!(Instant::parse_rfc3339("1990-12-31T23:59:60Z").is_none());
}

#[test]
fn test_instant_new_bounds() {
    assert!(Instant::new(0, 0).is_some());
    assert!(Instant::new(0, 999_999_999).is_some());
    assert!(Instant::new(0, 1_000_000_000).is_none());
    assert!(Instant::new(timeinterval::instant::MAX_TS, 0).is_some());
    assert!(Instant::new(timeinterval::instant::MAX_TS + 1, 0).is_none());
    assert!(Instant::new(timeinterval::instant::MIN_TS - 1, 0).is_none());
}

#[test]
fn test_malformed_parse_inputs() {
    // No separator at all.
    let r = TimeInterval::new_from_string("2000-01-01T00:00:00Z");
    assert!(matches!(r, Err(TimeIntervalError::ParseError())));
    // One separator, but neither side a timestamp.
    let r = TimeInterval::new_from_string("a/b");
    assert!(matches!(r, Err(TimeIntervalError::ParseError())));
    // Too many separators.
    let r = TimeInterval::new_from_string("x/y/z");
    assert!(matches!(r, Err(TimeIntervalError::ParseError())));
    // Two separators around otherwise valid timestamps.
    let r = TimeInterval::new_from_string("2000-01-01T00:00:00Z/2000-01-02T00:00:00Z/");
    assert!(matches!(r, Err(TimeIntervalError::ParseError())));
    // Empty string.
    let r = TimeInterval::new_from_string("");
    assert!(matches!(r, Err(TimeIntervalError::ParseError())));
}

#[test]
fn test_roundtrip_with_subseconds() {
    let start = Instant { secs: 946684800, nanos: 500_000_000 };
    let end = Instant { secs: 946684923, nanos: 123_456_789 };
    let tp = TimeInterval::new(start, end);
    let text = tp.to_string();
    assert_eq!(
        text,
        "2000-01-01T00:00:00.500+00:00/2000-01-01T00:02:03.123456789+00:00"
    );
    let back = TimeInterval::new_from_string(&text).unwrap();
    assert_eq!(back.start(), &start);
    assert_eq!(back.end(), &end);
    assert_eq!(back.duration(), tp.duration());
}

#[test]
fn test_symmetry() {
    let t0 = Instant { secs: 0, nanos: 0 };
    let t1 = Instant { secs: 60, nanos: 0 };
    let t2 = Instant { secs: 120, nanos: 500 };
    let t3 = Instant { secs: 180, nanos: 0 };
    let a = TimeInterval::new(t0, t2);
    let b = TimeInterval::new(t1, t3);
    assert_eq!(a.gap(&b), b.gap(&a));
    assert_eq!(a.union(&b), b.union(&a));
    assert_eq!(a.intersection(&b), b.intersection(&a));
    assert_eq!(a.intersects(&b), b.intersects(&a));
    let c = TimeInterval::new(t0, t1);
    let d = TimeInterval::new(t2, t3);
    assert_eq!(c.gap(&d), d.gap(&c));
    assert_eq!(c.union(&d), d.union(&c));
    assert_eq!(c.intersection(&d), d.intersection(&c));
    assert_eq!(c.intersects(&d), d.intersects(&c));
}

#[test]
fn test_adjacent_boundary() {
    let t0 = Instant { secs: 0, nanos: 0 };
    let t1 = Instant { secs: 60, nanos: 0 };
    let t2 = Instant { secs: 120, nanos: 0 };
    let a = TimeInterval::new(t0, t1);
    let b = TimeInterval::new(t1, t2);
    assert!(!a.intersects(&b));
    assert!(a.intersection(&b).is_none());
    assert!(a.gap(&b).is_none());
    assert_eq!(a.union(&b), Some(TimeInterval::new(t0, t2)));
}

#[test]
fn test_disjoint_with_gap() {
    let t0 = Instant { secs: 0, nanos: 0 };
    let t1 = Instant { secs: 60, nanos: 0 };
    let t2 = Instant { secs: 120, nanos: 0 };
    let t3 = Instant { secs: 180, nanos: 0 };
    let a = TimeInterval::new(t0, t1);
    let b = TimeInterval::new(t2, t3);
    assert_eq!(a.gap(&b), Some(TimeInterval::new(t1, t2)));
    assert!(a.union(&b).is_none());
    assert!(a.intersection(&b).is_none());
    assert!(!a.intersects(&b));
}

#[test]
fn test_overlap() {
    let t0 = Instant { secs: 0, nanos: 0 };
    let t1 = Instant { secs: 60, nanos: 0 };
    let t2 = Instant { secs: 120, nanos: 0 };
    let t3 = Instant { secs: 180, nanos: 0 };
    let a = TimeInterval::new(t0, t2);
    let b = TimeInterval::new(t1, t3);
    assert_eq!(a.intersection(&b), Some(TimeInterval::new(t1, t2)));
    assert_eq!(a.union(&b), Some(TimeInterval::new(t0, t3)));
    assert!(a.gap(&b).is_none());
    assert!(a.intersects(&b));
}

#[test]
fn test_negative_duration_passthrough() {
    // An inverted interval is stored verbatim and yields a negative duration.
    let start = Instant { secs: 86400, nanos: 0 };
    let end = Instant { secs: 0, nanos: 0 };
    let tp = TimeInterval::new(start, end);
    assert_eq!(tp.duration(), Duration { secs: -86400, nanos: 0 });
    // With a sub-second borrow.
    let tp = TimeInterval::new(
        Instant { secs: 10, nanos: 500_000_000 },
        Instant { secs: 10, nanos: 0 },
    );
    assert_eq!(tp.duration(), Duration { secs: -1, nanos: 500_000_000 });
}

#[test]
fn test_from_event() {
    let t = Instant { secs: 946684800, nanos: 750_000_000 };
    let e = Event { timestamp: t, duration: Duration { secs: 3600, nanos: 500_000_000 } };
    let iv = TimeInterval::from_event(&e).unwrap();
    assert_eq!(iv.start(), &t);
    assert_eq!(iv.end(), &Instant { secs: 946688401, nanos: 250_000_000 });
    // A duration that runs past the representable range gives no interval.
    let late = Instant { secs: timeinterval::instant::MAX_TS, nanos: 0 };
    let e = Event { timestamp: late, duration: Duration { secs: 1, nanos: 0 } };
    assert!(TimeInterval::from_event(&e).is_none());
}
