//! The pointer-to-selection state machine: drag start on a chunk, per-frame
//! drag extension from the hover position via the layout map, drag release,
//! and one-step selection of single-line elements.
//!
//! The host input layer reports plain per-frame facts (drag started,
//! clicked, pointer position, button state); every decision taken from
//! them lives here.

use vstd::prelude::*;
use crate::models::chunk::TextChunk;
use crate::models::layout::{spec_get_y_range, LayoutMap, LayoutRecord, record_wf};
use crate::models::selection::Selection;
use crate::rendering::helpers::{calculate_line_from_y, spec_line_from_y, lemma_line_from_y_in_range};

verus! {

/// The first record whose vertical range contains `y`, in recorded order.
pub open spec fn find_record_by_y(recs: Seq<LayoutRecord>, y: u64) -> Option<LayoutRecord>
    decreases recs.len(),
{
    if recs.len() == 0 {
        None
    } else if recs[0].2 <= y <= recs[0].3 {
        Some(recs[0])
    } else {
        find_record_by_y(recs.drop_first(), y)
    }
}

/// The line a drag anchors to when it starts on a chunk: interpolated from
/// the pointer position when one is known, the chunk's first line
/// otherwise.
pub open spec fn spec_anchor_line(c: TextChunk, before_y: u64, after_y: u64, pointer_y: Option<u64>) -> int {
    match pointer_y {
        Some(y) => spec_line_from_y(c.line_start, c.line_end, before_y, after_y, y),
        None => c.line_start as int,
    }
}

/// Centralized selection handling for all chunk types.
pub struct SelectionManager;

impl SelectionManager {
    /// Handle pointer interaction with a chunk spanning the vertical range
    /// `before_y .. after_y`: a starting drag anchors the selection at the
    /// line under the pointer. Returns whether the chunk was plainly
    /// clicked (for click-to-clear detection by the caller).
    pub fn handle_interaction(
        selection: &mut Selection,
        chunk: &TextChunk,
        before_y: u64,
        after_y: u64,
        drag_started: bool,
        pointer_y: Option<u64>,
        clicked: bool,
    ) -> (was_clicked: bool)
        requires
            chunk.line_start <= chunk.line_end,
            before_y <= after_y,
        ensures
            was_clicked == clicked,
            drag_started ==> ({
                let line = spec_anchor_line(*chunk, before_y, after_y, pointer_y);
                final(selection).start_line == Some(line as usize)
                    && final(selection).end_line == Some(line as usize)
                    && final(selection).is_dragging
            }),
            !drag_started ==> *final(selection) == *old(selection),
            drag_started ==> final(selection).wf(),
    {
        if drag_started {
            match pointer_y {
                Some(y) => {
                    let precise_line = calculate_line_from_y(
                        chunk.line_start,
                        chunk.line_end,
                        before_y,
                        after_y,
                        y,
                    );
                    selection.start_drag(precise_line);
                },
                None => {
                    selection.start_drag(chunk.line_start);
                },
            }
        }
        clicked
    }

    /// Handle interaction with a single-line element (an image): a click
    /// selects its line in one step, with the drag immediately ended.
    pub fn handle_single_line_interaction(selection: &mut Selection, clicked: bool, line: usize)
        ensures
            clicked ==> *final(selection) == (Selection {
                start_line: Some(line),
                end_line: Some(line),
                is_dragging: false,
            }),
            !clicked ==> *final(selection) == *old(selection),
    {
        if clicked {
            selection.start_drag(line);
            selection.end_drag();
        }
    }

    /// Extend a drag in progress from the hover position: the first layout
    /// record whose vertical range contains the pointer decides the new
    /// end line, interpolated within that record. Does nothing when no
    /// drag is in progress, the pointer position is unknown, or no record
    /// contains it.
    pub fn update_from_hover(selection: &mut Selection, layout_map: &LayoutMap, hover_y: Option<u64>)
        requires
            old(selection).wf(),
            layout_map.wf(),
        ensures
            final(selection).wf(),
            !old(selection).is_dragging ==> *final(selection) == *old(selection),
            old(selection).is_dragging ==> match hover_y {
                None => *final(selection) == *old(selection),
                Some(y) => match find_record_by_y(layout_map@, y) {
                    None => *final(selection) == *old(selection),
                    Some(rec) => {
                        &&& final(selection).end_line matches Some(l)
                            && l as int == spec_line_from_y(rec.0, rec.1, rec.2, rec.3, y)
                        &&& final(selection).start_line == old(selection).start_line
                        &&& final(selection).is_dragging == old(selection).is_dragging
                    },
                },
            },
    {
        if !selection.is_dragging {
            return;
        }
        let y = match hover_y {
            Some(y) => y,
            None => {
                return;
            },
        };
        let n = layout_map.chunks.len();
        let mut i: usize = 0;
        proof {
            assert(layout_map@.skip(0) =~= layout_map@);
        }
        while i < n
            invariant
                0 <= i <= n,
                n == layout_map@.len(),
                layout_map.wf(),
                hover_y == Some(y),
                selection.is_dragging,
                selection.wf(),
                *selection == *old(selection),
                find_record_by_y(layout_map@.skip(i as int), y) == find_record_by_y(layout_map@, y),
            decreases n - i,
        {
            let (ls, le, ys, ye) = layout_map.chunks[i];
            proof {
                assert(layout_map@.skip(i as int)[0] == layout_map@[i as int]);
                assert(record_wf(layout_map@[i as int]));
            }
            if ys <= y && y <= ye {
                proof {
                    lemma_line_from_y_in_range(ls, le, ys, ye, y);
                    assert(find_record_by_y(layout_map@, y) == Some(layout_map@[i as int]));
                }
                let precise_line = calculate_line_from_y(ls, le, ys, ye, y);
                proof {
                    assert(precise_line == spec_line_from_y(ls, le, ys, ye, y) as usize);
                }
                selection.update_drag(precise_line);
                return;
            }
            proof {
                assert(layout_map@.skip(i as int).drop_first() =~= layout_map@.skip(i as int + 1));
            }
            i += 1;
        }
        proof {
            assert(layout_map@.skip(n as int) =~= Seq::<LayoutRecord>::empty());
        }
    }

    /// The vertical range the selection highlight bar covers: the layout
    /// range of the normalized selected lines, or nothing when the
    /// selection is inactive or its lines are not on screen this frame.
    pub fn selection_bar_range(selection: &Selection, layout_map: &LayoutMap) -> (r: Option<(u64, u64)>)
        requires
            layout_map.wf(),
        ensures
            match (selection.start_line, selection.end_line) {
                (Some(s), Some(e)) => {
                    let lo = if s <= e { s } else { e };
                    let hi = if s <= e { e } else { s };
                    &&& (r is None <==> spec_get_y_range(layout_map@, lo, hi) is None)
                    &&& (r matches Some(p) ==> Some((p.0 as int, p.1 as int))
                        == spec_get_y_range(layout_map@, lo, hi))
                },
                _ => r is None,
            },
    {
        match (selection.start_line, selection.end_line) {
            (Some(start_line), Some(end_line)) => {
                let (min_line, max_line) = if start_line <= end_line {
                    (start_line, end_line)
                } else {
                    (end_line, start_line)
                };
                layout_map.get_y_range(min_line, max_line)
            },
            _ => None,
        }
    }

    /// End the drag when the pointer button has been released.
    pub fn handle_drag_release(selection: &mut Selection, pointer_any_down: bool)
        ensures
            !pointer_any_down && old(selection).is_dragging ==> *final(selection) == (Selection {
                is_dragging: false,
                ..*old(selection)
            }),
            pointer_any_down || !old(selection).is_dragging ==> *final(selection) == *old(selection),
    {
        if !pointer_any_down && selection.is_dragging {
            selection.end_drag();
        }
    }
}

} // verus!
