//! Chunk constructors: each takes a source byte range, turns it into
//! 1-indexed line/column positions through the line index, and appends
//! one chunk to the sequence. The spec constructors state the exact chunk
//! value each one appends.

use vstd::prelude::*;
use vstd::string::{StringExecFns, StringSliceAdditionalSpecFns};
use crate::models::chunk::{Alignment, ChunkV, TextChunk};
use crate::models::table::{Table, TableV};
use crate::parsing::images::{spec_lookup, ImageEntry, ImageMeta};
use crate::parsing::position::{spec_col_of, spec_line_of, LineOffsets};

verus! {

/// The chunk a text event yields: positioned styled text; the code-block
/// language is kept only inside a code block.
pub open spec fn spec_text_chunk(
    text: Seq<char>,
    bytes: Seq<u8>,
    start: int,
    end: int,
    bold: bool,
    italic: bool,
    in_code_block: bool,
    heading_level: Option<u8>,
    code_block_lang: Option<Seq<char>>,
) -> ChunkV {
    ChunkV {
        text,
        byte_start: start,
        byte_end: end,
        line_start: spec_line_of(bytes, start),
        col_start: spec_col_of(bytes, start),
        line_end: spec_line_of(bytes, end),
        col_end: spec_col_of(bytes, end),
        bold,
        italic,
        code: in_code_block,
        heading_level,
        newline_after: false,
        image_path: None,
        alignment: None,
        image_width: None,
        image_height: None,
        code_block_lang: if in_code_block {
            code_block_lang
        } else {
            None
        },
        table: None,
        cached_height: None,
    }
}

/// The chunk an inline code event yields: like text, always code-styled,
/// with no block language.
pub open spec fn spec_code_chunk(
    text: Seq<char>,
    bytes: Seq<u8>,
    start: int,
    end: int,
    bold: bool,
    italic: bool,
    heading_level: Option<u8>,
) -> ChunkV {
    ChunkV {
        text,
        byte_start: start,
        byte_end: end,
        line_start: spec_line_of(bytes, start),
        col_start: spec_col_of(bytes, start),
        line_end: spec_line_of(bytes, end),
        col_end: spec_col_of(bytes, end),
        bold,
        italic,
        code: true,
        heading_level,
        newline_after: false,
        image_path: None,
        alignment: None,
        image_width: None,
        image_height: None,
        code_block_lang: None,
        table: None,
        cached_height: None,
    }
}

/// The chunk a break event yields: line 0 marks it as not positioned.
pub open spec fn spec_break_chunk(text: Seq<char>, start: int, end: int, newline: bool) -> ChunkV {
    ChunkV {
        text,
        byte_start: start,
        byte_end: end,
        line_start: 0,
        col_start: 0,
        line_end: 0,
        col_end: 0,
        bold: false,
        italic: false,
        code: false,
        heading_level: None,
        newline_after: newline,
        image_path: None,
        alignment: None,
        image_width: None,
        image_height: None,
        code_block_lang: None,
        table: None,
        cached_height: None,
    }
}

/// The display text of an image chunk: `[Image: <url>]`.
pub open spec fn spec_image_text(url: Seq<char>) -> Seq<char> {
    "[Image: ".view() + url + "]".view()
}

/// The display height an image chunk gets from the metadata table: its
/// natural height, or, under a width constraint, the height keeping the
/// aspect ratio (rounding down, clamped to the `u32` range); none when
/// the image is unknown or reports a zero width.
pub open spec fn spec_image_height(
    images: Seq<ImageEntry>,
    url: Seq<char>,
    width: Option<u32>,
) -> Option<u32> {
    match spec_lookup(images, url) {
        None => None,
        Some(dims) => match width {
            Some(dw) => if dims.0 == 0 {
                None
            } else if (dw as int) * (dims.1 as int) / (dims.0 as int) > u32::MAX as int {
                Some(u32::MAX)
            } else {
                Some(((dw as int) * (dims.1 as int) / (dims.0 as int)) as u32)
            },
            None => Some(dims.1),
        },
    }
}

/// The chunk an image yields: the resolved path, alignment and width
/// constraint, and the pre-computed display height.
pub open spec fn spec_image_chunk(
    url: Seq<char>,
    bytes: Seq<u8>,
    start: int,
    end: int,
    alignment: Option<Alignment>,
    width: Option<u32>,
    images: Seq<ImageEntry>,
) -> ChunkV {
    ChunkV {
        text: spec_image_text(url),
        byte_start: start,
        byte_end: end,
        line_start: spec_line_of(bytes, start),
        col_start: spec_col_of(bytes, start),
        line_end: spec_line_of(bytes, end),
        col_end: spec_col_of(bytes, end),
        bold: false,
        italic: false,
        code: false,
        heading_level: None,
        newline_after: true,
        image_path: Some(url),
        alignment,
        image_width: width,
        image_height: spec_image_height(images, url, width),
        code_block_lang: None,
        table: None,
        cached_height: None,
    }
}

/// The chunk a finished table yields: the table payload under a fixed
/// placeholder text, spanning the table's whole source range.
pub open spec fn spec_table_chunk(table: TableV, bytes: Seq<u8>, start: int, end: int) -> ChunkV {
    ChunkV {
        text: "[Table]".view(),
        byte_start: start,
        byte_end: end,
        line_start: spec_line_of(bytes, start),
        col_start: spec_col_of(bytes, start),
        line_end: spec_line_of(bytes, end),
        col_end: spec_col_of(bytes, end),
        bold: false,
        italic: false,
        code: false,
        heading_level: None,
        newline_after: true,
        image_path: None,
        alignment: None,
        image_width: None,
        image_height: None,
        code_block_lang: None,
        table: Some(table),
        cached_height: None,
    }
}

/// Push a text chunk to the chunks vector.
pub fn push_text_chunk(
    chunks: &mut Vec<TextChunk>,
    text: String,
    source: &str,
    line_offsets: &LineOffsets,
    start: usize,
    end: usize,
    bold: bool,
    italic: bool,
    in_code_block: bool,
    heading_level: Option<u8>,
    code_block_lang: &Option<String>,
)
    requires
        line_offsets.wf(source.spec_bytes()),
        source.spec_bytes().len() < usize::MAX,
    ensures
        final(chunks).deep_view() == old(chunks).deep_view().push(
            spec_text_chunk(
                text@,
                source.spec_bytes(),
                start as int,
                end as int,
                bold,
                italic,
                in_code_block,
                heading_level,
                spec_opt_view(*code_block_lang),
            ),
        ),
{
    let (line_start, col_start) = line_offsets.byte_to_line_col(source, start);
    let (line_end, col_end) = line_offsets.byte_to_line_col(source, end);
    let lang = if in_code_block {
        clone_opt_string(code_block_lang)
    } else {
        None
    };
    let chunk = TextChunk {
        text,
        byte_start: start,
        byte_end: end,
        line_start,
        col_start,
        line_end,
        col_end,
        bold,
        italic,
        code: in_code_block,
        heading_level,
        newline_after: false,
        image_path: None,
        alignment: None,
        image_width: None,
        image_height: None,
        code_block_lang: lang,
        table: None,
        cached_height: None,
    };
    chunks.push(chunk);
    proof {
        lemma_deep_view_push(*old(chunks), *chunks);
    }
}

/// Push an inline code chunk to the chunks vector.
pub fn push_code_chunk(
    chunks: &mut Vec<TextChunk>,
    text: String,
    source: &str,
    line_offsets: &LineOffsets,
    start: usize,
    end: usize,
    bold: bool,
    italic: bool,
    heading_level: Option<u8>,
)
    requires
        line_offsets.wf(source.spec_bytes()),
        source.spec_bytes().len() < usize::MAX,
    ensures
        final(chunks).deep_view() == old(chunks).deep_view().push(
            spec_code_chunk(
                text@,
                source.spec_bytes(),
                start as int,
                end as int,
                bold,
                italic,
                heading_level,
            ),
        ),
{
    let (line_start, col_start) = line_offsets.byte_to_line_col(source, start);
    let (line_end, col_end) = line_offsets.byte_to_line_col(source, end);
    let chunk = TextChunk {
        text,
        byte_start: start,
        byte_end: end,
        line_start,
        col_start,
        line_end,
        col_end,
        bold,
        italic,
        code: true,
        heading_level,
        newline_after: false,
        image_path: None,
        alignment: None,
        image_width: None,
        image_height: None,
        code_block_lang: None,
        table: None,
        cached_height: None,
    };
    chunks.push(chunk);
    proof {
        lemma_deep_view_push(*old(chunks), *chunks);
    }
}

/// Push a break chunk (soft or hard break) to the chunks vector.
pub fn push_break_chunk(chunks: &mut Vec<TextChunk>, text: String, start: usize, end: usize, newline: bool)
    ensures
        final(chunks).deep_view() == old(chunks).deep_view().push(
            spec_break_chunk(text@, start as int, end as int, newline),
        ),
{
    let chunk = TextChunk {
        text,
        byte_start: start,
        byte_end: end,
        line_start: 0,
        col_start: 0,
        line_end: 0,
        col_end: 0,
        bold: false,
        italic: false,
        code: false,
        heading_level: None,
        newline_after: newline,
        image_path: None,
        alignment: None,
        image_width: None,
        image_height: None,
        code_block_lang: None,
        table: None,
        cached_height: None,
    };
    chunks.push(chunk);
    proof {
        lemma_deep_view_push(*old(chunks), *chunks);
    }
}

/// Push an image chunk with alignment, width constraint and pre-computed
/// height to the chunks vector.
pub fn push_image_chunk_with_alignment(
    chunks: &mut Vec<TextChunk>,
    url: String,
    source: &str,
    line_offsets: &LineOffsets,
    start: usize,
    end: usize,
    alignment: Option<Alignment>,
    width: Option<u32>,
    images: &ImageMeta,
)
    requires
        line_offsets.wf(source.spec_bytes()),
        source.spec_bytes().len() < usize::MAX,
    ensures
        final(chunks).deep_view() == old(chunks).deep_view().push(
            spec_image_chunk(
                url@,
                source.spec_bytes(),
                start as int,
                end as int,
                alignment,
                width,
                images.entries@,
            ),
        ),
{
    let (line_start, col_start) = line_offsets.byte_to_line_col(source, start);
    let (line_end, col_end) = line_offsets.byte_to_line_col(source, end);
    let image_height = match images.lookup(&url) {
        None => None,
        Some((w, h)) => match width {
            Some(dw) => {
                if w == 0 {
                    None
                } else {
                    proof {
                        let ghost dwi = dw as int;
                        let ghost hi = h as int;
                        assert(dwi * hi < 0x10000000000000000) by (nonlinear_arith)
                            requires
                                0 <= dwi < 0x100000000,
                                0 <= hi < 0x100000000,
                        ;
                    }
                    let scaled = (dw as u64) * (h as u64) / (w as u64);
                    if scaled > u32::MAX as u64 {
                        Some(u32::MAX)
                    } else {
                        Some(scaled as u32)
                    }
                }
            },
            None => Some(h),
        },
    };
    let mut text = String::new();
    text.append("[Image: ");
    text.append(url.as_str());
    text.append("]");
    proof {
        assert(text@ =~= spec_image_text(url@));
    }
    let chunk = TextChunk {
        text,
        byte_start: start,
        byte_end: end,
        line_start,
        col_start,
        line_end,
        col_end,
        bold: false,
        italic: false,
        code: false,
        heading_level: None,
        newline_after: true,
        image_path: Some(url),
        alignment,
        image_width: width,
        image_height,
        code_block_lang: None,
        table: None,
        cached_height: None,
    };
    chunks.push(chunk);
    proof {
        lemma_deep_view_push(*old(chunks), *chunks);
    }
}

/// Push an image chunk without alignment or width constraint.
pub fn push_image_chunk(
    chunks: &mut Vec<TextChunk>,
    url: String,
    source: &str,
    line_offsets: &LineOffsets,
    start: usize,
    end: usize,
    images: &ImageMeta,
)
    requires
        line_offsets.wf(source.spec_bytes()),
        source.spec_bytes().len() < usize::MAX,
    ensures
        final(chunks).deep_view() == old(chunks).deep_view().push(
            spec_image_chunk(
                url@,
                source.spec_bytes(),
                start as int,
                end as int,
                None,
                None,
                images.entries@,
            ),
        ),
{
    push_image_chunk_with_alignment(chunks, url, source, line_offsets, start, end, None, None, images);
}

/// Push a table chunk to the chunks vector.
pub fn push_table_chunk(
    chunks: &mut Vec<TextChunk>,
    table: Table,
    source: &str,
    line_offsets: &LineOffsets,
    start: usize,
    end: usize,
)
    requires
        line_offsets.wf(source.spec_bytes()),
        source.spec_bytes().len() < usize::MAX,
    ensures
        final(chunks).deep_view() == old(chunks).deep_view().push(
            spec_table_chunk(table@, source.spec_bytes(), start as int, end as int),
        ),
{
    let (line_start, col_start) = line_offsets.byte_to_line_col(source, start);
    let (line_end, col_end) = line_offsets.byte_to_line_col(source, end);
    let mut text = String::new();
    text.append("[Table]");
    proof {
        assert(text@ =~= "[Table]".view());
    }
    let chunk = TextChunk {
        text,
        byte_start: start,
        byte_end: end,
        line_start,
        col_start,
        line_end,
        col_end,
        bold: false,
        italic: false,
        code: false,
        heading_level: None,
        newline_after: true,
        image_path: None,
        alignment: None,
        image_width: None,
        image_height: None,
        code_block_lang: None,
        table: Some(table),
        cached_height: None,
    };
    chunks.push(chunk);
    proof {
        lemma_deep_view_push(*old(chunks), *chunks);
    }
}

/// The view of an optional string.
pub open spec fn spec_opt_view(s: Option<String>) -> Option<Seq<char>> {
    match s {
        Some(x) => Some(x@),
        None => None,
    }
}

/// A copy of an optional string, equal value for value.
pub fn clone_opt_string(s: &Option<String>) -> (r: Option<String>)
    ensures
        r == *s,
{
    match s {
        Some(x) => Some(x.clone()),
        None => None,
    }
}

/// A copy of a string vector, element for element.
pub fn clone_string_vec(v: &Vec<String>) -> (r: Vec<String>)
    ensures
        r@ == v@,
{
    let n = v.len();
    let mut out: Vec<String> = Vec::new();
    proof {
        assert(out@ =~= v@.take(0));
    }
    let mut i: usize = 0;
    while i < n
        invariant
            0 <= i <= n,
            n == v@.len(),
            out@ == v@.take(i as int),
        decreases n - i,
    {
        out.push(v[i].clone());
        proof {
            assert(v@.take(i as int + 1) =~= v@.take(i as int).push(v@[i as int]));
        }
        i += 1;
    }
    proof {
        assert(v@.take(n as int) =~= v@);
    }
    out
}

/// Appending one chunk appends its value.
proof fn lemma_deep_view_push(pre: Vec<TextChunk>, post: Vec<TextChunk>)
    requires
        post@ == pre@.push(post@[post@.len() - 1]),
        post@.len() == pre@.len() + 1,
    ensures
        post.deep_view() == pre.deep_view().push(post@[post@.len() - 1]@),
{
    assert(post.deep_view() =~= pre.deep_view().push(post@[post@.len() - 1]@));
}

} // verus!
