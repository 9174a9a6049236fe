//! Relative timestamps attached to top-level parsed nodes.

use vstd::prelude::*;

verus! {

/// Relative time of one top-level chunk: milliseconds from the start of the
/// recording, and the chunk's own duration (time until the next chunk).
#[derive(Debug, Clone, Copy, PartialEq, Eq, Structural)]
pub struct Timestamp {
    /// Milliseconds from the start of the recording.
    pub relative: i64,
    /// Milliseconds until the next chunk is logged.
    pub duration: i64,
}

impl Timestamp {
    /// A timestamp from millisecond counts.
    pub fn new(relative: u32, duration: u32) -> (r: Timestamp)
        ensures
            r.relative == relative as i64,
            r.duration == duration as i64,
    {
        Timestamp { relative: relative as i64, duration: duration as i64 }
    }

    /// Milliseconds from the start of the recording.
    pub fn relative_ms(&self) -> (r: i64)
        ensures
            r == self.relative,
    {
        self.relative
    }

    /// Duration of the chunk in milliseconds.
    pub fn duration_ms(&self) -> (r: i64)
        ensures
            r == self.duration,
    {
        self.duration
    }

    /// Shift this timestamp by another: only the relative part moves, the
    /// duration is kept.
    pub fn add(&self, timestamp: &Timestamp) -> (r: Timestamp)
        requires
            i64::MIN <= self.relative + timestamp.relative <= i64::MAX,
        ensures
            r.relative == self.relative + timestamp.relative,
            r.duration == self.duration,
    {
        Timestamp { relative: self.relative + timestamp.relative, duration: self.duration }
    }

    /// Shift this timestamp back by another: only the relative part moves,
    /// the duration is kept.
    pub fn sub(&self, timestamp: &Timestamp) -> (r: Timestamp)
        requires
            i64::MIN <= self.relative - timestamp.relative <= i64::MAX,
        ensures
            r.relative == self.relative - timestamp.relative,
            r.duration == self.duration,
    {
        Timestamp { relative: self.relative - timestamp.relative, duration: self.duration }
    }
}

impl Default for Timestamp {
    /// The zero timestamp.
    fn default() -> (r: Self)
        ensures
            r.relative == 0,
            r.duration == 0,
    {
        Timestamp { relative: 0, duration: 0 }
    }
}

} // verus!
