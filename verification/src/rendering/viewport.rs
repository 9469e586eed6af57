//! Viewport culling with height caching for stable lazy rendering.
//!
//! While the layout cursor has not yet passed the bottom of the visible
//! rectangle (plus a guard margin), every chunk is fully rendered; after
//! that, chunks that already have a cached height are skipped and their
//! space is reserved instead, so total document height stays stable.

use vstd::prelude::*;
use crate::models::chunk::TextChunk;

verus! {

/// Guard margin below the viewport, in layout units: content this close to
/// the visible area is still rendered so it is ready when scrolled into
/// view.
pub const VIEWPORT_GUARD: u64 = 1000;

/// An axis-aligned rectangle in layout units.
#[derive(Clone, Copy, Debug, PartialEq, Eq, Structural)]
pub struct RectU {
    pub min_x: u64,
    pub min_y: u64,
    pub max_x: u64,
    pub max_y: u64,
}

/// Two rectangles overlap (touching edges count as overlapping).
pub open spec fn spec_rects_intersect(a: RectU, b: RectU) -> bool {
    a.min_x <= b.max_x && b.min_x <= a.max_x && a.min_y <= b.max_y && b.min_y <= a.max_y
}

/// Manages viewport culling decisions and cached-height rendering for one
/// frame.
pub struct ViewportCuller {
    /// The visible rectangle (clip bounds) of the current frame.
    pub viewport: RectU,
    /// Sticky flag: set once the layout cursor has moved past the bottom
    /// of the viewport by more than the guard margin.
    pub past_viewport: bool,
}

impl ViewportCuller {
    /// A culler for the current frame, with the given clip rectangle and
    /// the cursor not yet past it.
    pub fn new(viewport: RectU) -> (r: Self)
        ensures
            r.viewport == viewport,
            !r.past_viewport,
    {
        ViewportCuller { viewport, past_viewport: false }
    }

    /// Whether a chunk whose top edge is at `start_y` should be fully
    /// rendered. True until the cursor first passes the viewport bottom
    /// plus the guard margin; from then on false, so chunks fall back to
    /// cached or estimated heights.
    pub fn should_render(&mut self, start_y: u64) -> (r: bool)
        ensures
            r == !old(self).past_viewport,
            final(self).viewport == old(self).viewport,
            final(self).past_viewport == (old(self).past_viewport
                || start_y as int > old(self).viewport.max_y as int + VIEWPORT_GUARD as int),
    {
        if !self.past_viewport {
            if start_y > self.viewport.max_y && start_y - self.viewport.max_y > VIEWPORT_GUARD {
                self.past_viewport = true;
            }
            return true;
        }
        false
    }

    /// Whether a rectangle overlaps the viewport.
    pub fn intersects_viewport(&self, rect: RectU) -> (r: bool)
        ensures
            r == spec_rects_intersect(rect, self.viewport),
    {
        rect.min_x <= self.viewport.max_x && self.viewport.min_x <= rect.max_x
            && rect.min_y <= self.viewport.max_y && self.viewport.min_y <= rect.max_y
    }

    /// An approximate rectangle for viewport testing: the given top-left
    /// corner extended by a width and height, clamped to the coordinate
    /// range.
    pub fn create_approx_rect(x: u64, y: u64, width: u64, height: u64) -> (r: RectU)
        ensures
            r.min_x == x,
            r.min_y == y,
            r.max_x as int == if x + width <= u64::MAX { x + width } else { u64::MAX as int },
            r.max_y as int == if y + height <= u64::MAX { y + height } else { u64::MAX as int },
    {
        RectU { min_x: x, min_y: y, max_x: x.saturating_add(width), max_y: y.saturating_add(height) }
    }

    /// The height to advance the cursor by for a skipped chunk: its cached
    /// measured height, or the estimate when none exists yet.
    pub fn get_height(chunk: &TextChunk, estimated: u32) -> (r: u32)
        ensures
            r == match chunk@.cached_height {
                Some(h) => h,
                None => estimated,
            },
    {
        match chunk.cached_height {
            Some(h) => h,
            None => estimated,
        }
    }
}

} // verus!
