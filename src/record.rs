//! One stored submission: when it came and what was answered.
use vstd::prelude::*;

verus! {

/// A point in time in UTC: whole seconds since the Unix epoch and the nanoseconds past them.
#[derive(PartialEq, Eq, Structural, Clone, Copy, Debug)]
pub struct Timestamp {
    pub secs: i64,
    pub nanos: u32,
}

/// A submission as stored: its timestamp and the answers keyed by field name or posted key.
#[derive(Clone, Debug, PartialEq)]
pub struct ResponseEntry {
    pub timestamp: Timestamp,
    pub answers: Vec<(String, Option<String>)>,
}

/// Relies on `chrono::Utc::now` for the current time, read back through
/// `DateTime::timestamp` and `DateTime::timestamp_subsec_nanos`. The value depends on
/// the clock, so nothing is promised of it.
#[verifier::external_body]
pub(crate) fn now_utc() -> (r: Timestamp) {
    let t = chrono::Utc::now();
    Timestamp { secs: t.timestamp(), nanos: t.timestamp_subsec_nanos() }
}

} // verus!
