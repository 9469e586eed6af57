//! Interpolation and height-estimation helpers for viewport culling and
//! selection: mapping a vertical position inside a chunk back to a source
//! line, and estimating chunk heights before they are measured.

use vstd::prelude::*;
use vstd::arithmetic::div_mod::{lemma_div_is_ordered, lemma_fundamental_div_mod};
use vstd::arithmetic::mul::lemma_mul_inequality;
use vstd::string::StringSliceAdditionalSpecFns;
use vstd::utf8::encode_utf8;
use crate::models::chunk::TextChunk;

verus! {

/// Smaller of two ints.
pub open spec fn min_int(a: int, b: int) -> int {
    if a <= b { a } else { b }
}

/// Which line within a chunk a vertical position falls on.
///
/// The chunk spans lines `line_start ..= line_end` over the vertical range
/// `y_start .. y_end`; each line gets `(y_end - y_start) / line_count`
/// units (rounding down). Positions above the chunk map to the first line;
/// positions past the last line (including everything below the top when
/// the chunk is shorter than one unit per line) clamp to the last line.
pub open spec fn spec_line_from_y(line_start: usize, line_end: usize, y_start: u64, y_end: u64, y_pos: u64) -> int {
    let lc = line_end - line_start + 1;
    let step = ((y_end - y_start) as int) / lc;
    let off_y: int = if y_pos <= y_start { 0 } else { y_pos - y_start };
    let idx: int = if step == 0 {
        if off_y == 0 { 0 } else { lc - 1 }
    } else {
        off_y / step
    };
    line_start + min_int(idx, lc - 1)
}

/// The interpolated line stays inside the chunk's line range.
pub proof fn lemma_line_from_y_in_range(line_start: usize, line_end: usize, y_start: u64, y_end: u64, y_pos: u64)
    requires
        line_start <= line_end,
        y_start <= y_end,
    ensures
        line_start <= spec_line_from_y(line_start, line_end, y_start, y_end, y_pos) <= line_end,
{
    let lc = line_end - line_start + 1;
    let step = ((y_end - y_start) as int) / lc;
    let off_y: int = if y_pos <= y_start { 0 } else { y_pos - y_start };
    if step > 0 {
        lemma_div_is_ordered(0, off_y, step);
    } else {
        lemma_fundamental_div_mod((y_end - y_start) as int, lc);
    }
}

/// The line at the chunk's top edge is its first line.
pub proof fn lemma_line_from_y_at_top(line_start: usize, line_end: usize, y_start: u64, y_end: u64)
    requires
        line_start <= line_end,
        y_start <= y_end,
    ensures
        spec_line_from_y(line_start, line_end, y_start, y_end, y_start) == line_start,
{
}

/// Moving the position down never moves the computed line up.
pub proof fn lemma_line_from_y_monotone(line_start: usize, line_end: usize, y_start: u64, y_end: u64, y1: u64, y2: u64)
    requires
        line_start <= line_end,
        y_start <= y_end,
        y1 <= y2,
    ensures
        spec_line_from_y(line_start, line_end, y_start, y_end, y1)
            <= spec_line_from_y(line_start, line_end, y_start, y_end, y2),
{
    let lc = line_end - line_start + 1;
    let step = ((y_end - y_start) as int) / lc;
    let off1: int = if y1 <= y_start { 0 } else { y1 - y_start };
    let off2: int = if y2 <= y_start { 0 } else { y2 - y_start };
    assert(off1 <= off2);
    if step > 0 {
        lemma_div_is_ordered(off1, off2, step);
        lemma_div_is_ordered(0, off1, step);
    }
}

/// Calculate which line within a chunk corresponds to a vertical position,
/// by interpolation over the chunk's recorded span.
pub fn calculate_line_from_y(line_start: usize, line_end: usize, chunk_y_start: u64, chunk_y_end: u64, y_pos: u64) -> (r: usize)
    requires
        line_start <= line_end,
        chunk_y_start <= chunk_y_end,
    ensures
        r as int == spec_line_from_y(line_start, line_end, chunk_y_start, chunk_y_end, y_pos),
        line_start <= r <= line_end,
{
    proof {
        lemma_line_from_y_in_range(line_start, line_end, chunk_y_start, chunk_y_end, y_pos);
    }
    let diff = (line_end - line_start) as u64;
    let dy = chunk_y_end - chunk_y_start;
    let step: u64 = if diff == u64::MAX {
        proof {
            let ghost dyi = dy as int;
            let ghost lci = diff as int + 1;
            assert(dyi / lci == 0) by (nonlinear_arith)
                requires
                    0 <= dyi,
                    dyi < lci,
            ;
        }
        0
    } else {
        dy / (diff + 1)
    };
    let off_y = if y_pos <= chunk_y_start { 0 } else { y_pos - chunk_y_start };
    let idx: u64 = if step == 0 {
        if off_y == 0 { 0 } else { diff }
    } else {
        off_y / step
    };
    let clamped: u64 = if idx <= diff { idx } else { diff };
    line_start + (clamped as usize)
}

/// Number of newline bytes in `s`.
pub open spec fn spec_count_newlines(s: Seq<u8>) -> int
    decreases s.len(),
{
    if s.len() == 0 {
        0
    } else {
        spec_count_newlines(s.drop_last()) + if s.last() == 0x0A { 1int } else { 0int }
    }
}

/// Number of text lines, as `str::lines` counts them: one per newline
/// byte, plus one for a final line not ended by a newline.
pub open spec fn spec_text_line_count(s: Seq<u8>) -> int {
    spec_count_newlines(s) + if s.len() > 0 && s.last() != 0x0A { 1int } else { 0int }
}

/// Number of lines in a chunk's text, at least 1.
pub fn text_line_count(s: &str) -> (r: usize)
    ensures
        r == if spec_text_line_count(s.spec_bytes()) >= 1 { spec_text_line_count(s.spec_bytes()) } else { 1 },
{
    let bytes = s.as_bytes();
    let n = bytes.len();
    let mut count: usize = 0;
    let mut i: usize = 0;
    proof {
        assert(bytes@.take(0) =~= Seq::<u8>::empty());
    }
    while i < n
        invariant
            0 <= i <= n,
            n == bytes@.len(),
            count <= i,
            count == spec_count_newlines(bytes@.take(i as int)),
        decreases n - i,
    {
        proof {
            assert(bytes@.take(i as int + 1).drop_last() =~= bytes@.take(i as int));
        }
        if bytes[i] == 0x0A {
            count += 1;
        }
        i += 1;
    }
    proof {
        assert(bytes@.take(n as int) =~= bytes@);
        lemma_count_newlines_bound(bytes@);
    }
    if n == 0 {
        return 1;
    }
    if bytes[n - 1] != 0x0A {
        count + 1
    } else {
        if count == 0 {
            1
        } else {
            count
        }
    }
}

proof fn lemma_count_newlines_bound(s: Seq<u8>)
    ensures
        0 <= spec_count_newlines(s) <= s.len(),
        s.len() > 0 && s.last() == 0x0A ==> spec_count_newlines(s) >= 1,
        s.len() > 0 && s.last() != 0x0A ==> spec_count_newlines(s) <= s.len() - 1,
    decreases s.len(),
{
    if s.len() > 0 {
        lemma_count_newlines_bound(s.drop_last());
    }
}

/// Product clamped to the `u32` range.
pub open spec fn sat_mul_u32(a: int, b: int) -> int {
    if a * b > u32::MAX { u32::MAX as int } else { a * b }
}

/// Sum clamped to the `u32` range.
pub open spec fn sat_add_u32(a: int, b: int) -> int {
    if a + b > u32::MAX { u32::MAX as int } else { a + b }
}

/// `lines * height` with the product clamped to `u32::MAX`.
fn mul_line_height(lines: usize, height: u32) -> (r: u32)
    requires
        lines >= 1,
    ensures
        r as int == sat_mul_u32(lines as int, height as int),
{
    if height == 0 {
        assert(lines as int * height as int == 0) by (nonlinear_arith)
            requires height as int == 0;
        return 0;
    }
    let cap = (u32::MAX / height) as usize;
    if lines > cap {
        proof {
            lemma_fundamental_div_mod(u32::MAX as int, height as int);
            assert(lines as int * height as int > u32::MAX) by (nonlinear_arith)
                requires
                    lines as int >= cap as int + 1,
                    cap as int == (u32::MAX as int) / (height as int),
                    (cap as int) * (height as int) > u32::MAX as int - height as int,
                    height as int >= 1;
        }
        return u32::MAX;
    }
    proof {
        lemma_fundamental_div_mod(u32::MAX as int, height as int);
        lemma_mul_inequality(lines as int, cap as int, height as int);
        assert((cap as int) * (height as int) <= u32::MAX as int);
    }
    (lines as u32) * height
}

/// Estimated height of a text chunk: its line count times the minimum
/// line height, clamped to the `u32` range.
pub fn estimate_text_height(chunk: &TextChunk, min_line_height: u32) -> (r: u32)
    ensures
        ({
            let lines = spec_text_line_count(encode_utf8(chunk.text@));
            let lc = if lines >= 1 { lines } else { 1 };
            r as int == sat_mul_u32(lc, min_line_height as int)
        }),
{
    let lc = text_line_count(chunk.text.as_str());
    mul_line_height(lc, min_line_height)
}

/// Estimated height of a code block: the text estimate plus fixed padding
/// above and below, clamped to the `u32` range.
pub fn estimate_code_height(chunk: &TextChunk, min_line_height: u32, code_block_padding: u32) -> (r: u32)
    ensures
        ({
            let lines = spec_text_line_count(encode_utf8(chunk.text@));
            let lc = if lines >= 1 { lines } else { 1 };
            r as int == sat_add_u32(
                sat_add_u32(sat_mul_u32(lc, min_line_height as int), code_block_padding as int),
                code_block_padding as int,
            )
        }),
{
    let base = estimate_text_height(chunk, min_line_height);
    base.saturating_add(code_block_padding).saturating_add(code_block_padding)
}

/// Estimated height of a table: one row more than its body (for the
/// header) times the minimum line height, clamped to the `u32` range.
pub fn estimate_table_height(row_count: usize, min_line_height: u32) -> (r: u32)
    ensures
        r as int == sat_mul_u32(row_count as int + 1, min_line_height as int),
{
    if row_count == usize::MAX {
        if min_line_height == 0 {
            assert((row_count as int + 1) * (min_line_height as int) == 0) by (nonlinear_arith)
                requires min_line_height as int == 0;
            return 0;
        }
        proof {
            assert((row_count as int + 1) * (min_line_height as int) > u32::MAX) by (nonlinear_arith)
                requires
                    row_count as int + 1 > u32::MAX,
                    min_line_height as int >= 1;
        }
        return u32::MAX;
    }
    mul_line_height(row_count + 1, min_line_height)
}

/// A chunk's cached measured height, or the estimate when none has been
/// measured yet.
pub fn get_cached_or_estimated_height(chunk: &TextChunk, estimated: u32) -> (r: u32)
    ensures
        r == match chunk@.cached_height {
            Some(h) => h,
            None => estimated,
        },
{
    match chunk.cached_height {
        Some(h) => h,
        None => estimated,
    }
}

} // verus!
