//! Line-range text selection driven by pointer drags.
//!
//! A selection is either idle (no lines set), dragging (anchor set, end
//! following the pointer), or held (a finished range). The invariant is that
//! `start_line` and `end_line` are both set or both unset, and that a drag in
//! progress implies both are set.

use vstd::prelude::*;

verus! {

/// Current selection state: a line range plus a drag-in-progress flag.
#[derive(Clone)]
pub struct Selection {
    /// First line of the selection (the drag anchor), 1-indexed.
    pub start_line: Option<usize>,
    /// Last line reached by the drag, 1-indexed; may be above `start_line`.
    pub end_line: Option<usize>,
    /// True while the pointer is down and extending the selection.
    pub is_dragging: bool,
}

impl Selection {
    /// Well-formedness: both endpoints set or both unset, and a drag in
    /// progress implies an active selection.
    pub open spec fn wf(self) -> bool {
        &&& (self.start_line is Some <==> self.end_line is Some)
        &&& (self.is_dragging ==> self.start_line is Some)
    }

    /// Idle: nothing selected and no drag in progress.
    pub open spec fn spec_is_idle(self) -> bool {
        self.start_line is None && self.end_line is None && !self.is_dragging
    }

    /// A line is inside the normalized selected range.
    pub open spec fn spec_contains_line(self, line: usize) -> bool {
        match (self.start_line, self.end_line) {
            (Some(s), Some(e)) => {
                let lo = if s <= e { s } else { e };
                let hi = if s <= e { e } else { s };
                lo <= line <= hi
            },
            _ => false,
        }
    }

    /// Active iff both endpoints are set.
    pub fn is_active(&self) -> (r: bool)
        ensures
            r == (self.start_line is Some && self.end_line is Some),
    {
        self.start_line.is_some() && self.end_line.is_some()
    }

    /// Reset to the idle state. Clearing an already-idle selection is a no-op.
    pub fn clear(&mut self)
        ensures
            final(self).spec_is_idle(),
            final(self).wf(),
            old(self).spec_is_idle() ==> *final(self) == *old(self),
    {
        self.start_line = None;
        self.end_line = None;
        self.is_dragging = false;
    }

    /// Begin a drag: both endpoints move to `line` and the drag flag is set.
    pub fn start_drag(&mut self, line: usize)
        ensures
            final(self).start_line == Some(line),
            final(self).end_line == Some(line),
            final(self).is_dragging,
            final(self).wf(),
    {
        self.start_line = Some(line);
        self.end_line = Some(line);
        self.is_dragging = true;
    }

    /// Extend the drag: moves `end_line` while a drag is in progress, in
    /// either direction from the anchor; does nothing otherwise.
    pub fn update_drag(&mut self, line: usize)
        requires
            old(self).wf(),
        ensures
            old(self).is_dragging ==> *final(self) == (Selection {
                end_line: Some(line),
                ..*old(self)
            }),
            !old(self).is_dragging ==> *final(self) == *old(self),
            final(self).wf(),
    {
        if self.is_dragging {
            self.end_line = Some(line);
        }
    }

    /// Finish the drag, keeping the selected range.
    pub fn end_drag(&mut self)
        ensures
            *final(self) == (Selection { is_dragging: false, ..*old(self) }),
            old(self).wf() ==> final(self).wf(),
    {
        self.is_dragging = false;
    }

    /// A line is selected iff it lies in the normalized inclusive range
    /// between the two endpoints, whichever order the drag set them in.
    pub fn contains_line(&self, line: usize) -> (r: bool)
        ensures
            r == self.spec_contains_line(line),
    {
        if let (Some(start), Some(end)) = (self.start_line, self.end_line) {
            let (min_line, max_line) = if start <= end {
                (start, end)
            } else {
                (end, start)
            };
            line >= min_line && line <= max_line
        } else {
            false
        }
    }
}

impl Default for Selection {
    /// The idle selection: no lines, no drag.
    fn default() -> (r: Self)
        ensures
            r.spec_is_idle(),
            r.wf(),
    {
        Selection { start_line: None, end_line: None, is_dragging: false }
    }
}

} // verus!
