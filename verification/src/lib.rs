//! A small temporal algebra: half-open time intervals over UTC instants,
//! with gap / union / intersection operations and an RFC 3339 based
//! textual range representation (`<start>/<end>`).

pub mod instant;
pub mod interval;

pub use instant::Duration;
pub use instant::Instant;
pub use interval::Event;
pub use interval::TimeInterval;
pub use interval::TimeIntervalError;
