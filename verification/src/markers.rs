//! The loop markers: the pending start and end of a loop.

use vstd::prelude::*;

verus! {

/// The pending start and end of a loop, each a time in milliseconds or unset.
#[derive(Debug, Copy, Clone, PartialEq, Eq)]
pub struct LoopMarkers {
    pub loop_start: Option<u64>,
    pub loop_end: Option<u64>,
}

/// The markers after the start is put at `now`: an end that does not lie after the new
/// start is cleared.
pub open spec fn markers_after_start(m: LoopMarkers, now: u64) -> LoopMarkers {
    LoopMarkers {
        loop_start: Some(now),
        loop_end: match m.loop_end {
            Some(e) if e > now => Some(e),
            _ => None,
        },
    }
}

/// The markers after the end is put at `now`: a start that does not lie before the new
/// end is cleared.
pub open spec fn markers_after_end(m: LoopMarkers, now: u64) -> LoopMarkers {
    LoopMarkers {
        loop_start: match m.loop_start {
            Some(s) if s < now => Some(s),
            _ => None,
        },
        loop_end: Some(now),
    }
}

impl LoopMarkers {
    /// The invariant of the type: where both markers are set, the end lies after the
    /// start.
    pub open spec fn wf(&self) -> bool {
        self.loop_start is Some && self.loop_end is Some ==> self.loop_end.unwrap()
            > self.loop_start.unwrap()
    }

    /// Whether the markers describe a range that can be cut: both set, the end after the
    /// start.
    pub open spec fn cuttable(&self) -> bool {
        self.loop_start is Some && self.loop_end is Some && self.loop_end.unwrap()
            > self.loop_start.unwrap()
    }

    /// Whether playback at `now` has reached the end marker.
    pub open spec fn reached_end(&self, now: u64) -> bool {
        self.loop_end is Some && now >= self.loop_end.unwrap()
    }

    /// Both markers unset.
    pub fn unset() -> (r: LoopMarkers)
        ensures
            r.loop_start is None,
            r.loop_end is None,
            r.wf(),
    {
        LoopMarkers { loop_start: None, loop_end: None }
    }

    /// Puts the start at `now` and clears an end that does not lie after it.
    pub fn start_at(&mut self, now: u64)
        ensures
            *final(self) == markers_after_start(*old(self), now),
            final(self).wf(),
    {
        self.loop_start = Some(now);
        let keep = match self.loop_end {
            Some(e) => e > now,
            None => false,
        };
        if !keep {
            self.loop_end = None;
        }
    }

    /// Puts the end at `now` and clears a start that does not lie before it.
    pub fn end_at(&mut self, now: u64)
        ensures
            *final(self) == markers_after_end(*old(self), now),
            final(self).wf(),
    {
        self.loop_end = Some(now);
        let keep = match self.loop_start {
            Some(s) => s < now,
            None => false,
        };
        if !keep {
            self.loop_start = None;
        }
    }

    /// Clears the end and leaves the start as it is.
    pub fn break_loop(&mut self)
        ensures
            final(self).loop_start == old(self).loop_start,
            final(self).loop_end is None,
            final(self).wf(),
    {
        self.loop_end = None;
    }

    /// Clears both markers.
    pub fn reset(&mut self)
        ensures
            final(self).loop_start is None,
            final(self).loop_end is None,
            final(self).wf(),
    {
        self.loop_start = None;
        self.loop_end = None;
    }

    /// Whether both markers are set with the end after the start.
    pub fn can_cut(&self) -> (b: bool)
        ensures
            b == self.cuttable(),
    {
        match (self.loop_start, self.loop_end) {
            (Some(s), Some(e)) => e > s,
            _ => false,
        }
    }

    /// Whether the end marker is set and `now` lies at or after it.
    pub fn has_reached_end(&self, now: u64) -> (b: bool)
        ensures
            b == self.reached_end(now),
    {
        match self.loop_end {
            Some(e) => now >= e,
            None => false,
        }
    }
}

} // verus!
