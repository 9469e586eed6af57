//! Per-frame layout index: maps source line ranges to vertical screen
//! ranges, in whole layout units.
//!
//! The map is rebuilt every frame: `clear` at the start of the frame, then
//! one `record_chunk` per rendered chunk, in render order. Lookups
//! interpolate linearly inside a chunk's recorded line span.

use vstd::prelude::*;
use vstd::arithmetic::div_mod::lemma_fundamental_div_mod;
use vstd::arithmetic::mul::lemma_mul_inequality;

verus! {

/// One record: lines `.0 ..= .1` occupy the vertical range `.2 .. .3`.
pub type LayoutRecord = (usize, usize, u64, u64);

/// A record is well formed when its line range is non-empty, starts at a
/// real line (line 0 is the "not positioned" sentinel) and its vertical
/// range is non-negative.
pub open spec fn record_wf(r: LayoutRecord) -> bool {
    1 <= r.0 <= r.1 && r.2 <= r.3
}

/// Number of source lines a record spans.
pub open spec fn record_line_count(r: LayoutRecord) -> int {
    r.1 - r.0 + 1
}

/// Height of one line inside a record: the record's height divided evenly
/// (rounding down) over the lines it spans.
pub open spec fn record_line_step(r: LayoutRecord) -> int {
    ((r.3 - r.2) as int) / record_line_count(r)
}

/// Top edge of `line` inside a record that contains it.
pub open spec fn interp_line_y(r: LayoutRecord, line: usize) -> int {
    r.2 + (line - r.0) * record_line_step(r)
}

/// The first record whose line range contains `line`, in recorded order.
pub open spec fn find_record(recs: Seq<LayoutRecord>, line: usize) -> Option<LayoutRecord>
    decreases recs.len(),
{
    if recs.len() == 0 {
        None
    } else if recs[0].0 <= line <= recs[0].1 {
        Some(recs[0])
    } else {
        find_record(recs.drop_first(), line)
    }
}

/// What `get_line_y` returns over a record sequence.
pub open spec fn spec_get_line_y(recs: Seq<LayoutRecord>, line: usize) -> Option<int> {
    match find_record(recs, line) {
        None => None,
        Some(r) => Some(interp_line_y(r, line)),
    }
}

/// What `get_y_range` returns over a record sequence: the top of the first
/// line and the top of the last line plus one line step, so the range
/// covers the full last line.
pub open spec fn spec_get_y_range(recs: Seq<LayoutRecord>, min_line: usize, max_line: usize) -> Option<(int, int)> {
    match (spec_get_line_y(recs, min_line), find_record(recs, max_line)) {
        (Some(y0), Some(r)) => Some((y0, interp_line_y(r, max_line) + record_line_step(r))),
        _ => None,
    }
}

/// Layout information for selection bar rendering: line ranges of the
/// chunks rendered this frame, with their vertical screen ranges.
pub struct LayoutMap {
    /// One record per rendered chunk: `(line_start, line_end, y_start, y_end)`.
    pub chunks: Vec<LayoutRecord>,
}

impl View for LayoutMap {
    type V = Seq<LayoutRecord>;

    open spec fn view(&self) -> Seq<LayoutRecord> {
        self.chunks@
    }
}

/// Interpolated line tops stay inside the record's vertical range.
proof fn lemma_interp_in_range(r: LayoutRecord, line: usize)
    requires
        record_wf(r),
        r.0 <= line <= r.1,
    ensures
        0 <= record_line_step(r),
        r.2 <= interp_line_y(r, line),
        interp_line_y(r, line) + record_line_step(r) <= r.3,
{
    let dy = (r.3 - r.2) as int;
    let lc = record_line_count(r);
    let step = record_line_step(r);
    let off = line - r.0;
    lemma_fundamental_div_mod(dy, lc);
    assert(lc * step <= dy);
    lemma_mul_inequality(off + 1, lc, step);
    assert((off + 1) * step == off * step + step) by (nonlinear_arith);
    assert(0 <= off * step) by (nonlinear_arith)
        requires 0 <= off && 0 <= step;
}

impl LayoutMap {
    /// All recorded entries are well formed.
    pub open spec fn wf(&self) -> bool {
        forall|i: int| 0 <= i < self@.len() ==> record_wf(#[trigger] self@[i])
    }

    /// An empty layout map.
    pub fn new() -> (r: Self)
        ensures
            r@ == Seq::<LayoutRecord>::empty(),
            r.wf(),
    {
        let r = LayoutMap { chunks: Vec::new() };
        assert(r@ =~= Seq::<LayoutRecord>::empty());
        r
    }

    /// Drop all records; call at the start of every frame, since vertical
    /// positions are only valid for the current layout pass. Clearing an
    /// already-empty map leaves it empty: the call is idempotent.
    pub fn clear(&mut self)
        ensures
            final(self)@ == Seq::<LayoutRecord>::empty(),
            final(self).wf(),
    {
        self.chunks.clear();
        assert(self@ =~= Seq::<LayoutRecord>::empty());
    }

    /// Record that lines `line_start ..= line_end` occupy the vertical
    /// range `y_start .. y_end`. Records with `line_start == 0` (the
    /// sentinel for non-positioned break chunks) are discarded.
    pub fn record_chunk(&mut self, line_start: usize, line_end: usize, y_start: u64, y_end: u64)
        requires
            old(self).wf(),
            line_start > 0 ==> line_start <= line_end && y_start <= y_end,
        ensures
            line_start == 0 ==> final(self)@ == old(self)@,
            line_start > 0 ==> final(self)@ == old(self)@.push((line_start, line_end, y_start, y_end)),
            final(self).wf(),
    {
        if line_start > 0 {
            self.chunks.push((line_start, line_end, y_start, y_end));
        }
    }

    /// The vertical position of the top of `line`, if some recorded chunk
    /// contains it: the first matching record is interpolated linearly over
    /// the lines it spans.
    pub fn get_line_y(&self, line: usize) -> (r: Option<u64>)
        requires
            self.wf(),
        ensures
            r is None <==> spec_get_line_y(self@, line) is None,
            r is Some ==> Some(r->0 as int) == spec_get_line_y(self@, line),
    {
        let n = self.chunks.len();
        let mut i: usize = 0;
        proof {
            assert(self@.skip(0) =~= self@);
        }
        while i < n
            invariant
                0 <= i <= n,
                n == self@.len(),
                self.wf(),
                find_record(self@.skip(i as int), line) == find_record(self@, line),
            decreases n - i,
        {
            let (ls, le, ys, ye) = self.chunks[i];
            proof {
                assert(self@.skip(i as int)[0] == self@[i as int]);
            }
            if ls <= line && line <= le {
                let rec = (ls, le, ys, ye);
                let dy = ye - ys;
                let lc = (le - ls + 1) as u64;
                let step = dy / lc;
                let off = (line - ls) as u64;
                proof {
                    lemma_interp_in_range(rec, line);
                    assert(step as int == record_line_step(rec));
                    assert(off as int * step as int == (line - ls) * record_line_step(rec));
                }
                return Some(ys + off * step);
            }
            proof {
                assert(self@.skip(i as int).drop_first() =~= self@.skip(i as int + 1));
            }
            i += 1;
        }
        proof {
            assert(self@.skip(n as int) =~= Seq::<LayoutRecord>::empty());
        }
        None
    }

    /// The vertical range spanned by the lines `min_line ..= max_line`:
    /// the top of the first line through the bottom of the last line (its
    /// top plus one line step). `None` if either endpoint is not covered
    /// by a recorded chunk.
    pub fn get_y_range(&self, min_line: usize, max_line: usize) -> (r: Option<(u64, u64)>)
        requires
            self.wf(),
        ensures
            r is None <==> spec_get_y_range(self@, min_line, max_line) is None,
            r is Some ==> Some(((r->0).0 as int, (r->0).1 as int)) == spec_get_y_range(self@, min_line, max_line),
    {
        let start_y = match self.get_line_y(min_line) {
            Some(y) => y,
            None => {
                return None;
            },
        };
        if self.get_line_y(max_line).is_none() {
            return None;
        }
        let n = self.chunks.len();
        let mut i: usize = 0;
        proof {
            assert(self@.skip(0) =~= self@);
        }
        while i < n
            invariant
                0 <= i <= n,
                n == self@.len(),
                self.wf(),
                find_record(self@.skip(i as int), max_line) == find_record(self@, max_line),
                find_record(self@, max_line) is Some,
                spec_get_line_y(self@, min_line) == Some(start_y as int),
            decreases n - i,
        {
            let (ls, le, ys, ye) = self.chunks[i];
            proof {
                assert(self@.skip(i as int)[0] == self@[i as int]);
            }
            if ls <= max_line && max_line <= le {
                let rec = (ls, le, ys, ye);
                let dy = ye - ys;
                let lc = (le - ls + 1) as u64;
                let step = dy / lc;
                let off = (max_line - ls) as u64;
                proof {
                    lemma_interp_in_range(rec, max_line);
                    assert(step as int == record_line_step(rec));
                    assert(off as int * step as int == (max_line - ls) * record_line_step(rec));
                }
                return Some((start_y, ys + off * step + step));
            }
            proof {
                assert(self@.skip(i as int).drop_first() =~= self@.skip(i as int + 1));
            }
            i += 1;
        }
        proof {
            assert(self@.skip(n as int) =~= Seq::<LayoutRecord>::empty());
        }
        None
    }
}

} // verus!
