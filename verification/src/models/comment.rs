//! A review comment anchored to a line/column range of the source.

use vstd::prelude::*;
use vstd::string::StringExecFns;
use crate::text::{dec_digits, u64_to_string};

verus! {

/// A review comment with its source position (1-indexed lines; columns as
/// the selection layer reported them).
#[derive(Clone)]
pub struct Comment {
    pub text: String,
    pub line_start: usize,
    pub col_start: usize,
    pub line_end: usize,
    pub col_end: usize,
}

/// The display form of a comment: `[L<ls>:C<cs> → L<le>:C<ce>] <text>`.
pub open spec fn spec_comment_format(c: Comment) -> Seq<char> {
    "[L"@ + dec_digits(c.line_start as int) + ":C"@ + dec_digits(c.col_start as int) + " → L"@
        + dec_digits(c.line_end as int) + ":C"@ + dec_digits(c.col_end as int) + "] "@ + c.text@
}

impl Comment {
    /// A comment with the given text and anchor range.
    pub fn new(text: String, line_start: usize, col_start: usize, line_end: usize, col_end: usize) -> (r: Self)
        ensures
            r.text@ == text@,
            r.line_start == line_start,
            r.col_start == col_start,
            r.line_end == line_end,
            r.col_end == col_end,
    {
        Comment { text, line_start, col_start, line_end, col_end }
    }

    /// Render the comment as one line: its anchor range in brackets,
    /// followed by its text.
    pub fn format(&self) -> (r: String)
        ensures
            r@ == spec_comment_format(*self),
    {
        let mut out = String::new();
        out.append("[L");
        let ls = u64_to_string(self.line_start as u64);
        out.append(ls.as_str());
        out.append(":C");
        let cs = u64_to_string(self.col_start as u64);
        out.append(cs.as_str());
        out.append(" → L");
        let le = u64_to_string(self.line_end as u64);
        out.append(le.as_str());
        out.append(":C");
        let ce = u64_to_string(self.col_end as u64);
        out.append(ce.as_str());
        out.append("] ");
        out.append(self.text.as_str());
        proof {
            assert(out@ =~= spec_comment_format(*self));
        }
        out
    }
}

} // verus!
