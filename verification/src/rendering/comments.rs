//! Source-text extraction for the comment panel: the verbatim text of a
//! selected line range, for attaching to a review comment.

use vstd::prelude::*;
use vstd::string::StrSliceExecFns;
use crate::text::string_push;

verus! {

/// Number of newline characters in `s`.
pub open spec fn count_nl_chars(s: Seq<char>) -> int
    decreases s.len(),
{
    if s.len() == 0 {
        0
    } else {
        count_nl_chars(s.drop_last()) + if s.last() == '\n' { 1int } else { 0int }
    }
}

/// The 1-indexed line the character at position `p` lies on (a newline
/// belongs to the line it ends).
pub open spec fn char_line_of(chars: Seq<char>, p: int) -> int {
    1 + count_nl_chars(chars.take(p))
}

/// Whether the character at `p` belongs to the snippet for lines
/// `lo ..= hi`: every character of those lines, except the newline that
/// ends the last one.
pub open spec fn snippet_keeps(chars: Seq<char>, p: int, lo: int, hi: int) -> bool {
    let line = char_line_of(chars, p);
    if chars[p] == '\n' {
        lo <= line && line < hi
    } else {
        lo <= line <= hi
    }
}

/// The snippet drawn from the first `n` characters.
pub open spec fn spec_snippet_upto(chars: Seq<char>, lo: int, hi: int, n: int) -> Seq<char>
    decreases n,
{
    if n <= 0 {
        Seq::empty()
    } else {
        spec_snippet_upto(chars, lo, hi, n - 1) + if snippet_keeps(chars, n - 1, lo, hi) {
            seq![chars[n - 1]]
        } else {
            Seq::empty()
        }
    }
}

/// The verbatim text of lines `lo ..= hi` of the source, joined by the
/// newlines that separate them; empty when the range misses every line.
pub open spec fn spec_snippet(chars: Seq<char>, lo: int, hi: int) -> Seq<char> {
    spec_snippet_upto(chars, lo, hi, chars.len() as int)
}

/// Extract the verbatim source text of the 1-indexed line range
/// `start_line ..= end_line`, without the newline that ends the last
/// line. Lines outside the source contribute nothing.
pub fn extract_text_snippet(source: &str, start_line: usize, end_line: usize) -> (r: String)
    ensures
        r@ == spec_snippet(source@, start_line as int, end_line as int),
{
    let n = source.unicode_len();
    let mut out = String::new();
    let mut nl: usize = 0;
    let mut p: usize = 0;
    proof {
        assert(source@.take(0) =~= Seq::<char>::empty());
    }
    while p < n
        invariant
            0 <= p <= n,
            n == source@.len(),
            nl <= p,
            nl == count_nl_chars(source@.take(p as int)),
            out@ == spec_snippet_upto(source@, start_line as int, end_line as int, p as int),
        decreases n - p,
    {
        let c = source.get_char(p);
        proof {
            assert(source@.take(p as int + 1).drop_last() =~= source@.take(p as int));
            assert(source@.take(p as int + 1).last() == source@[p as int]);
        }
        let line = nl + 1;
        let keep = if c == '\n' {
            start_line <= line && line < end_line
        } else {
            start_line <= line && line <= end_line
        };
        if keep {
            string_push(&mut out, c);
        }
        if c == '\n' {
            nl += 1;
        }
        p += 1;
    }
    out
}

} // verus!
