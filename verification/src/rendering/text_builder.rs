//! Context for text rendering: which theme settings a piece of styled
//! text gets. The renderer keys font size and color off this tag.

use vstd::prelude::*;

verus! {

/// Context for text rendering, determines which theme settings to apply.
#[derive(Debug, Clone, Copy, PartialEq, Eq, Structural)]
pub enum TextContext {
    /// Regular body text.
    Body,
    /// Heading text with level (1-6).
    Heading(u8),
    /// Text inside table cells.
    TableCell { is_header: bool },
    /// Inline code.
    InlineCode,
}

} // verus!
