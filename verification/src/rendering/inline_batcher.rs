//! Batching of consecutive inline text chunks into flow-wrappable runs, so
//! a downstream flow layout can wrap bold/italic/code spans on the same
//! visual line instead of breaking at every style boundary.

use vstd::prelude::*;
use vstd::utf8::encode_utf8;
use crate::models::chunk::{ChunkV, TextChunk};
use crate::text::{first_non_ws, trim_start_bytes, lemma_ws_prefix_len_bounds};

verus! {

/// The text begins (after ASCII whitespace) with a markdown list bullet:
/// `- `, `* ` or `+ `.
pub open spec fn spec_starts_with_bullet(s: Seq<u8>) -> bool {
    let t = trim_start_bytes(s);
    t.len() >= 2 && (t[0] == 0x2D || t[0] == 0x2A || t[0] == 0x2B) && t[1] == 0x20
}

/// A chunk may join an inline run: it is plain styled text, not an image,
/// code block, table or heading, and not a list item.
pub open spec fn spec_inline_eligible(c: ChunkV) -> bool {
    &&& c.image_path is None
    &&& c.code_block_lang is None
    &&& c.table is None
    &&& c.heading_level is None
    &&& !spec_starts_with_bullet(encode_utf8(c.text))
}

/// A chunk is inline: eligible and not itself forcing a block break.
pub open spec fn spec_is_inline_chunk(c: ChunkV) -> bool {
    spec_inline_eligible(c) && !c.newline_after
}

/// Where the run that continues at position `j` ends (exclusive): at the
/// first non-eligible chunk, or just after the first chunk that forces a
/// block break, or at the end of the sequence.
pub open spec fn spec_batch_end(s: Seq<TextChunk>, j: int) -> int
    decreases s.len() - j,
{
    if j >= s.len() || !spec_inline_eligible(s[j]@) {
        j
    } else if s[j]@.newline_after {
        j + 1
    } else {
        spec_batch_end(s, j + 1)
    }
}

/// The inline run starting at `start`, if the chunk there is eligible:
/// `Some((start, end_exclusive))`, extending while chunks stay eligible and
/// stopping (inclusively) at the first chunk with a forced break.
pub open spec fn spec_find_inline_batch(s: Seq<TextChunk>, start: int) -> Option<(int, int)> {
    if start >= s.len() || !spec_inline_eligible(s[start]@) {
        None
    } else {
        Some((start, spec_batch_end(s, start + 1)))
    }
}

/// Determines which chunks are batched together into one wrapped layout.
pub struct InlineTextBatcher;

impl InlineTextBatcher {
    /// The text begins with a markdown list bullet, after leading ASCII
    /// whitespace.
    pub fn starts_with_bullet(text: &str) -> (r: bool)
        ensures
            r == spec_starts_with_bullet(encode_utf8(text@)),
    {
        let bytes = text.as_bytes();
        let i = first_non_ws(bytes);
        proof {
            lemma_ws_prefix_len_bounds(bytes@);
        }
        if bytes.len() - i < 2 {
            proof {
                assert(trim_start_bytes(bytes@).len() == bytes@.len() - i);
            }
            return false;
        }
        let b0 = bytes[i];
        let b1 = bytes[i + 1];
        proof {
            assert(trim_start_bytes(bytes@)[0] == bytes@[i as int]);
            assert(trim_start_bytes(bytes@)[1] == bytes@[i as int + 1]);
        }
        (b0 == 0x2D || b0 == 0x2A || b0 == 0x2B) && b1 == 0x20
    }

    /// Whether a chunk should be batched with its neighbours.
    pub fn is_inline_chunk(chunk: &TextChunk) -> (r: bool)
        ensures
            r == spec_is_inline_chunk(chunk@),
    {
        if chunk.image_path.is_some() || chunk.code_block_lang.is_some() || chunk.table.is_some()
            || chunk.heading_level.is_some() || chunk.newline_after {
            return false;
        }
        !Self::starts_with_bullet(chunk.text.as_str())
    }

    /// Whether a chunk may continue a run (a forced break is allowed here:
    /// such a chunk ends the run but still belongs to it).
    fn inline_eligible(chunk: &TextChunk) -> (r: bool)
        ensures
            r == spec_inline_eligible(chunk@),
    {
        if chunk.image_path.is_some() || chunk.code_block_lang.is_some() || chunk.table.is_some()
            || chunk.heading_level.is_some() {
            return false;
        }
        !Self::starts_with_bullet(chunk.text.as_str())
    }

    /// The range of consecutive inline chunks starting at `start_idx`, as
    /// `(start, end_exclusive)`; `None` when the chunk there cannot start
    /// a run.
    pub fn find_inline_batch(chunks: &[TextChunk], start_idx: usize) -> (r: Option<(usize, usize)>)
        ensures
            match r {
                Some(p) => spec_find_inline_batch(chunks@, start_idx as int) == Some((p.0 as int, p.1 as int)),
                None => spec_find_inline_batch(chunks@, start_idx as int) is None,
            },
    {
        let n = chunks.len();
        if start_idx >= n {
            return None;
        }
        if !Self::inline_eligible(&chunks[start_idx]) {
            return None;
        }
        let mut end_idx = start_idx + 1;
        while end_idx < n
            invariant
                start_idx + 1 <= end_idx <= n,
                n == chunks@.len(),
                start_idx < n,
                spec_inline_eligible(chunks@[start_idx as int]@),
                spec_batch_end(chunks@, start_idx + 1) == spec_batch_end(chunks@, end_idx as int),
            decreases n - end_idx,
        {
            let chunk = &chunks[end_idx];
            if !Self::inline_eligible(chunk) {
                return Some((start_idx, end_idx));
            }
            if chunk.newline_after {
                return Some((start_idx, end_idx + 1));
            }
            end_idx += 1;
        }
        Some((start_idx, end_idx))
    }
}

} // verus!
