//! Byte-offset to line/column conversion over a source string.
//!
//! A `LineOffsets` table holds the byte offset of every line start, in
//! increasing order, starting with offset 0 for line 1. Lookups binary
//! search the table for the line and count characters for the column.
//! All positions are 1-indexed; offsets past the end of the source clamp
//! to the last line and column instead of erroring.

use vstd::prelude::*;
use vstd::string::StringSliceAdditionalSpecFns;
use vstd::utf8::is_continuation_byte;

verus! {

/// The byte offsets at which lines start: offset 0, plus the offset just
/// after every newline byte, in order.
pub open spec fn line_starts(bytes: Seq<u8>) -> Seq<int>
    decreases bytes.len(),
{
    if bytes.len() == 0 {
        seq![0]
    } else if bytes.last() == 0x0A {
        line_starts(bytes.drop_last()).push(bytes.len() as int)
    } else {
        line_starts(bytes.drop_last())
    }
}

/// Number of entries of `s` that are at most `x`.
pub open spec fn num_le(s: Seq<int>, x: int) -> int
    decreases s.len(),
{
    if s.len() == 0 {
        0
    } else {
        num_le(s.drop_last(), x) + if s.last() <= x { 1int } else { 0int }
    }
}

/// The 1-indexed line containing byte offset `off`: the number of line
/// starts at or before it.
pub open spec fn spec_line_of(bytes: Seq<u8>, off: int) -> int {
    num_le(line_starts(bytes), off)
}

/// The byte offset at which the line containing `off` starts.
pub open spec fn spec_line_start_of(bytes: Seq<u8>, off: int) -> int {
    line_starts(bytes)[spec_line_of(bytes, off) - 1]
}

/// Number of characters (non-continuation bytes) in `bytes[lo..hi]`.
pub open spec fn char_count(bytes: Seq<u8>, lo: int, hi: int) -> int
    decreases hi - lo,
{
    if hi <= lo {
        0
    } else {
        char_count(bytes, lo, hi - 1) + if is_continuation_byte(bytes[hi - 1]) { 0int } else { 1int }
    }
}

/// The smaller of `off` and the length of `bytes`: lookups past the end
/// of the source clamp here.
pub open spec fn clamp_off(bytes: Seq<u8>, off: int) -> int {
    if off <= bytes.len() { off } else { bytes.len() as int }
}

/// The 1-indexed column of byte offset `off`: one more than the number of
/// characters between its line start and the (clamped) offset.
pub open spec fn spec_col_of(bytes: Seq<u8>, off: int) -> int {
    1 + char_count(bytes, spec_line_start_of(bytes, off), clamp_off(bytes, off))
}

/// Shape of the line-start table: non-empty, starts at 0, strictly
/// increasing, all entries within the source.
pub proof fn lemma_line_starts_props(bytes: Seq<u8>)
    ensures
        line_starts(bytes).len() >= 1,
        line_starts(bytes)[0] == 0,
        forall|i: int, j: int| 0 <= i < j < line_starts(bytes).len()
            ==> line_starts(bytes)[i] < line_starts(bytes)[j],
        forall|i: int| 0 <= i < line_starts(bytes).len()
            ==> 0 <= #[trigger] line_starts(bytes)[i] <= bytes.len(),
    decreases bytes.len(),
{
    if bytes.len() > 0 {
        lemma_line_starts_props(bytes.drop_last());
    }
}

/// Counting entries at most `x` is monotone in `x`.
pub proof fn lemma_num_le_monotone(s: Seq<int>, x1: int, x2: int)
    requires
        x1 <= x2,
    ensures
        num_le(s, x1) <= num_le(s, x2),
    decreases s.len(),
{
    if s.len() > 0 {
        lemma_num_le_monotone(s.drop_last(), x1, x2);
    }
}

proof fn lemma_num_le_all(s: Seq<int>, x: int)
    requires
        forall|i: int| 0 <= i < s.len() ==> #[trigger] s[i] <= x,
    ensures
        num_le(s, x) == s.len(),
    decreases s.len(),
{
    if s.len() > 0 {
        assert(forall|i: int| 0 <= i < s.len() - 1 ==> s.drop_last()[i] == s[i]);
        lemma_num_le_all(s.drop_last(), x);
    }
}

/// In a strictly increasing sequence, if `s[lo] <= x` and the next entry
/// (if any) exceeds `x`, then exactly `lo + 1` entries are at most `x`.
proof fn lemma_num_le_position(s: Seq<int>, x: int, lo: int)
    requires
        forall|i: int, j: int| 0 <= i < j < s.len() ==> s[i] < s[j],
        0 <= lo < s.len(),
        s[lo] <= x,
        lo == s.len() - 1 || s[lo + 1] > x,
    ensures
        num_le(s, x) == lo + 1,
    decreases s.len(),
{
    if lo == s.len() - 1 {
        assert forall|i: int| 0 <= i < s.len() implies #[trigger] s[i] <= x by {
            if i < lo {
                assert(s[i] < s[lo]);
            }
        }
        lemma_num_le_all(s, x);
    } else {
        assert(s.last() == s[s.len() - 1]);
        assert(s[lo + 1] <= s[s.len() - 1] || lo + 1 == s.len() - 1);
        assert(s.last() > x);
        assert(forall|i: int| 0 <= i < s.len() - 1 ==> s.drop_last()[i] == s[i]);
        lemma_num_le_position(s.drop_last(), x, lo);
    }
}

/// Lines never decrease as the byte offset grows.
pub proof fn lemma_line_of_monotone(bytes: Seq<u8>, o1: int, o2: int)
    requires
        o1 <= o2,
    ensures
        spec_line_of(bytes, o1) <= spec_line_of(bytes, o2),
{
    lemma_num_le_monotone(line_starts(bytes), o1, o2);
}

/// Precomputed line offset table for fast byte-to-line conversion.
pub struct LineOffsets {
    /// Byte offset of each line start, in increasing order.
    pub offsets: Vec<usize>,
}

impl LineOffsets {
    /// The table matches the line starts of `bytes`.
    pub open spec fn wf(&self, bytes: Seq<u8>) -> bool {
        &&& self.offsets@.len() == line_starts(bytes).len()
        &&& forall|i: int| 0 <= i < self.offsets@.len()
            ==> #[trigger] self.offsets@[i] as int == line_starts(bytes)[i]
    }

    /// Build the line offset table in one linear scan: offset 0, then the
    /// offset just after every newline.
    pub fn new(source: &str) -> (r: Self)
        ensures
            r.wf(source.spec_bytes()),
    {
        let bytes = source.as_bytes();
        let n = bytes.len();
        let mut offsets: Vec<usize> = Vec::new();
        offsets.push(0);
        let mut i: usize = 0;
        proof {
            assert(bytes@.take(0) =~= Seq::<u8>::empty());
            assert(offsets@ =~= seq![0usize]);
        }
        while i < n
            invariant
                0 <= i <= n,
                n == bytes@.len(),
                offsets@.len() == line_starts(bytes@.take(i as int)).len(),
                forall|k: int| 0 <= k < offsets@.len()
                    ==> #[trigger] offsets@[k] as int == line_starts(bytes@.take(i as int))[k],
            decreases n - i,
        {
            proof {
                assert(bytes@.take(i as int + 1).drop_last() =~= bytes@.take(i as int));
            }
            if bytes[i] == 0x0A {
                offsets.push(i + 1);
            }
            i += 1;
        }
        proof {
            assert(bytes@.take(n as int) =~= bytes@);
        }
        LineOffsets { offsets }
    }

    /// Convert a byte offset to its 1-indexed `(line, column)`: binary
    /// search for the greatest line start at or before the offset, then
    /// count the characters from that line start to the (clamped) offset.
    pub fn byte_to_line_col(&self, source: &str, byte_offset: usize) -> (r: (usize, usize))
        requires
            self.wf(source.spec_bytes()),
            source.spec_bytes().len() < usize::MAX,
        ensures
            r.0 == spec_line_of(source.spec_bytes(), byte_offset as int),
            r.1 == spec_col_of(source.spec_bytes(), byte_offset as int),
    {
        let bytes = source.as_bytes();
        let n = bytes.len();
        proof {
            lemma_line_starts_props(bytes@);
        }
        let mut lo: usize = 0;
        let mut hi: usize = self.offsets.len();
        while hi - lo > 1
            invariant
                0 <= lo < hi <= self.offsets@.len(),
                self.wf(bytes@),
                n == bytes@.len(),
                self.offsets@[lo as int] <= byte_offset,
                hi < self.offsets@.len() ==> self.offsets@[hi as int] > byte_offset,
                forall|i: int, j: int| 0 <= i < j < line_starts(bytes@).len()
                    ==> line_starts(bytes@)[i] < line_starts(bytes@)[j],
                forall|i: int| 0 <= i < line_starts(bytes@).len()
                    ==> 0 <= #[trigger] line_starts(bytes@)[i] <= bytes@.len(),
            decreases hi - lo,
        {
            let mid = lo + (hi - lo) / 2;
            if self.offsets[mid] <= byte_offset {
                lo = mid;
            } else {
                hi = mid;
            }
        }
        proof {
            lemma_num_le_position(line_starts(bytes@), byte_offset as int, lo as int);
        }
        let line = lo + 1;
        let line_start = self.offsets[lo];
        let end = if byte_offset <= n { byte_offset } else { n };
        let mut count: usize = 0;
        let mut k = line_start;
        proof {
            assert(char_count(bytes@, line_start as int, line_start as int) == 0);
        }
        while k < end
            invariant
                line_start <= k <= end || (end < line_start && k == line_start),
                end <= n,
                n == bytes@.len(),
                count <= k - line_start,
                count == char_count(bytes@, line_start as int, k as int),
            decreases end - k,
        {
            let b = bytes[k];
            if !(0x80 <= b && b <= 0xBF) {
                count += 1;
            }
            k += 1;
        }
        let col = count + 1;
        (line, col)
    }
}

/// Convert a byte offset to `(line, column)` by building the offset table
/// for one lookup.
pub fn byte_to_line_col(source: &str, byte_offset: usize) -> (r: (usize, usize))
    requires
        source.spec_bytes().len() < usize::MAX,
    ensures
        r.0 == spec_line_of(source.spec_bytes(), byte_offset as int),
        r.1 == spec_col_of(source.spec_bytes(), byte_offset as int),
{
    let offsets = LineOffsets::new(source);
    offsets.byte_to_line_col(source, byte_offset)
}

} // verus!
