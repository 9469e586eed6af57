//! The atomic unit of parsed markdown: a positioned, styled span of text,
//! or an image, code block or table, tagged with its source location.

use vstd::prelude::*;
use crate::models::table::{Table, TableV};

verus! {

/// Horizontal alignment for images and other block elements.
#[derive(Clone, Copy, Debug, PartialEq, Eq, Structural)]
pub enum Alignment {
    Left,
    Center,
    Right,
}

/// A rendered chunk of text with its source position.
///
/// Positions are 1-indexed lines and columns; `byte_start`/`byte_end` give
/// the chunk's span in the source. Vertical sizes (`image_width`,
/// `image_height`, `cached_height`) are in whole layout units.
#[derive(Debug)]
pub struct TextChunk {
    pub text: String,
    /// Start of the byte range in the source markdown.
    pub byte_start: usize,
    /// End (exclusive) of the byte range in the source markdown.
    pub byte_end: usize,
    /// Line/col range in the source markdown (1-indexed); line 0 is the
    /// sentinel for break chunks that carry no source position.
    pub line_start: usize,
    pub col_start: usize,
    pub line_end: usize,
    pub col_end: usize,
    /// Styling.
    pub bold: bool,
    pub italic: bool,
    pub code: bool,
    pub heading_level: Option<u8>,
    /// Forces a block break after this chunk.
    pub newline_after: bool,
    /// Image path (if this is an image).
    pub image_path: Option<String>,
    /// Image alignment (for images).
    pub alignment: Option<Alignment>,
    /// Image width constraint (for images), in layout units.
    pub image_width: Option<u32>,
    /// Display height computed from image metadata, in layout units.
    pub image_height: Option<u32>,
    /// Code block language (if this is a code block).
    pub code_block_lang: Option<String>,
    /// Table data (if this is a table).
    pub table: Option<Table>,
    /// Cached render height (for lazy loading without flicker).
    pub cached_height: Option<u32>,
}

/// Mathematical value of a [`TextChunk`].
#[verifier::ext_equal]
pub ghost struct ChunkV {
    pub text: Seq<char>,
    pub byte_start: int,
    pub byte_end: int,
    pub line_start: int,
    pub col_start: int,
    pub line_end: int,
    pub col_end: int,
    pub bold: bool,
    pub italic: bool,
    pub code: bool,
    pub heading_level: Option<u8>,
    pub newline_after: bool,
    pub image_path: Option<Seq<char>>,
    pub alignment: Option<Alignment>,
    pub image_width: Option<u32>,
    pub image_height: Option<u32>,
    pub code_block_lang: Option<Seq<char>>,
    pub table: Option<TableV>,
    pub cached_height: Option<u32>,
}

impl View for TextChunk {
    type V = ChunkV;

    open spec fn view(&self) -> ChunkV {
        ChunkV {
            text: self.text@,
            byte_start: self.byte_start as int,
            byte_end: self.byte_end as int,
            line_start: self.line_start as int,
            col_start: self.col_start as int,
            line_end: self.line_end as int,
            col_end: self.col_end as int,
            bold: self.bold,
            italic: self.italic,
            code: self.code,
            heading_level: self.heading_level,
            newline_after: self.newline_after,
            image_path: match self.image_path {
                Some(ref p) => Some(p@),
                None => None,
            },
            alignment: self.alignment,
            image_width: self.image_width,
            image_height: self.image_height,
            code_block_lang: match self.code_block_lang {
                Some(ref l) => Some(l@),
                None => None,
            },
            table: match self.table {
                Some(ref t) => Some(t@),
                None => None,
            },
            cached_height: self.cached_height,
        }
    }
}

impl DeepView for TextChunk {
    type V = ChunkV;

    open spec fn deep_view(&self) -> ChunkV {
        self.view()
    }
}

} // verus!
