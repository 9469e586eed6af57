//! Reader for block-level HTML fragments that wrap an aligned image:
//! a paragraph tag with an optional `align` attribute around an `<img>`
//! tag with a `src` and an optional numeric `width`. Anything else is
//! reported as no image, never an error.

use vstd::prelude::*;
use vstd::string::StringSliceAdditionalSpecFns;
use vstd::utf8::{decode_utf8, encode_utf8, valid_utf8};
use crate::models::chunk::Alignment;
use crate::text::{
    all_digits, append_bytes, contains_spec, contains_sub, dec_val, find_spec, find_sub,
    first_non_ws, last_non_ws, lemma_first_match_from_props, lemma_ws_prefix_len_bounds,
    lemma_ws_suffix_len_bounds, match_at, parse_u32, starts_with_sub, trim_bytes,
    trim_start_bytes,
};

verus! {

/// The alignment named by an `align="…"` attribute anywhere in the
/// fragment, double- or single-quoted; centered wins over right over left.
pub open spec fn spec_parse_alignment(s: Seq<u8>) -> Option<Alignment> {
    if contains_spec(s, "align=\"center\"".spec_bytes()) || contains_spec(
        s,
        "align='center'".spec_bytes(),
    ) {
        Some(Alignment::Center)
    } else if contains_spec(s, "align=\"right\"".spec_bytes()) || contains_spec(
        s,
        "align='right'".spec_bytes(),
    ) {
        Some(Alignment::Right)
    } else if contains_spec(s, "align=\"left\"".spec_bytes()) || contains_spec(
        s,
        "align='left'".spec_bytes(),
    ) {
        Some(Alignment::Left)
    } else {
        None
    }
}

/// The value of the attribute `name`: the bytes between `name="` (or
/// `name='`) and the next matching quote, at the first occurrence of
/// either pattern, double quotes tried first.
pub open spec fn spec_extract_attribute(s: Seq<u8>, name: Seq<u8>) -> Option<Seq<u8>> {
    let patd = name + "=\"".spec_bytes();
    let pats = name + "='".spec_bytes();
    if find_spec(s, patd) is Some {
        spec_attr_value(s, find_spec(s, patd)->0 + patd.len(), 0x22)
    } else if find_spec(s, pats) is Some {
        spec_attr_value(s, find_spec(s, pats)->0 + pats.len(), 0x27)
    } else {
        None
    }
}

/// The bytes from `vs` up to the next `quote` byte, if one follows.
pub open spec fn spec_attr_value(s: Seq<u8>, vs: int, quote: u8) -> Option<Seq<u8>> {
    let rem = s.skip(vs);
    match find_spec(rem, seq![quote]) {
        None => None,
        Some(e) => Some(rem.take(e)),
    }
}

/// The width attribute of the image section read as a decimal number;
/// absent, non-numeric or out-of-range widths count as no width.
pub open spec fn spec_width_attr(sect: Seq<u8>) -> Option<u32> {
    match spec_extract_attribute(sect, "width".spec_bytes()) {
        None => None,
        Some(w) => if w.len() > 0 && all_digits(w) && dec_val(w) <= u32::MAX {
            Some(dec_val(w) as u32)
        } else {
            None
        },
    }
}

/// The image of the fragment: from the first `<img` on, its `src` value,
/// the given alignment, and its numeric width if any. No `<img` or no
/// `src` means no image.
pub open spec fn spec_parse_img_attributes(s: Seq<u8>, alignment: Option<Alignment>) -> Option<
    (Seq<u8>, Option<Alignment>, Option<u32>),
> {
    match find_spec(s, "<img".spec_bytes()) {
        None => None,
        Some(st) => {
            let sect = s.skip(st);
            match spec_extract_attribute(sect, "src".spec_bytes()) {
                None => None,
                Some(src) => Some((src, alignment, spec_width_attr(sect))),
            }
        },
    }
}

/// What an HTML fragment yields: after trimming ASCII whitespace it must
/// begin with `<p`; then its alignment and image attributes are read.
pub open spec fn spec_parse_html_image(s: Seq<u8>) -> Option<
    (Seq<u8>, Option<Alignment>, Option<u32>),
> {
    let t = trim_bytes(s);
    if !match_at(t, "<p".spec_bytes(), 0) {
        None
    } else {
        spec_parse_img_attributes(t, spec_parse_alignment(t))
    }
}

/// Relies on String::from_utf8: succeeds exactly on valid UTF-8 input and
/// keeps the bytes as they are.
#[verifier::external_body]
fn string_from_utf8(v: Vec<u8>) -> (r: Option<String>)
    ensures
        r is Some <==> valid_utf8(v@),
        r matches Some(s) ==> encode_utf8(s@) == v@ && s@ == decode_utf8(v@),
{
    String::from_utf8(v).ok()
}

/// Extract alignment attribute from an HTML paragraph tag.
pub fn parse_alignment(html: &str) -> (r: Option<Alignment>)
    ensures
        r == spec_parse_alignment(html.spec_bytes()),
{
    parse_alignment_bytes(html.as_bytes())
}

fn parse_alignment_bytes(s: &[u8]) -> (r: Option<Alignment>)
    ensures
        r == spec_parse_alignment(s@),
{
    if contains_sub(s, "align=\"center\"".as_bytes()) || contains_sub(
        s,
        "align='center'".as_bytes(),
    ) {
        Some(Alignment::Center)
    } else if contains_sub(s, "align=\"right\"".as_bytes()) || contains_sub(
        s,
        "align='right'".as_bytes(),
    ) {
        Some(Alignment::Right)
    } else if contains_sub(s, "align=\"left\"".as_bytes()) || contains_sub(
        s,
        "align='left'".as_bytes(),
    ) {
        Some(Alignment::Left)
    } else {
        None
    }
}

/// The byte range `(start, end)` of the attribute's value inside `s`.
fn extract_attr_range(s: &[u8], name: &[u8]) -> (r: Option<(usize, usize)>)
    ensures
        match spec_extract_attribute(s@, name@) {
            None => r is None,
            Some(v) => r matches Some(p) && 0 <= p.0 <= p.1 <= s@.len() && s@.subrange(
                p.0 as int,
                p.1 as int,
            ) == v,
        },
{
    let n = s.len();
    let mut patd: Vec<u8> = Vec::new();
    append_bytes(&mut patd, name);
    append_bytes(&mut patd, "=\"".as_bytes());
    let mut pats: Vec<u8> = Vec::new();
    append_bytes(&mut pats, name);
    append_bytes(&mut pats, "='".as_bytes());
    let (pos, patlen, quote) = match find_sub(s, patd.as_slice()) {
        Some(pos) => {
            proof {
                lemma_first_match_from_props(s@, patd@, 0);
            }
            (pos, patd.len(), 0x22u8)
        },
        None => {
            match find_sub(s, pats.as_slice()) {
                Some(pos) => {
                    proof {
                        lemma_first_match_from_props(s@, pats@, 0);
                    }
                    (pos, pats.len(), 0x27u8)
                },
                None => {
                    return None;
                },
            }
        },
    };
    let vs = pos + patlen;
    let rem = &s[vs..n];
    let mut qpat: Vec<u8> = Vec::new();
    qpat.push(quote);
    proof {
        assert(qpat@ =~= seq![quote]);
        assert(rem@ =~= s@.skip(vs as int));
    }
    match find_sub(rem, qpat.as_slice()) {
        None => None,
        Some(e) => {
            proof {
                lemma_first_match_from_props(rem@, qpat@, 0);
                assert(s@.subrange(vs as int, vs as int + e as int) =~= s@.skip(vs as int).take(
                    e as int,
                ));
            }
            Some((vs, vs + e))
        },
    }
}

/// Extract a single attribute value from an HTML tag; handles single and
/// double quotes.
pub fn extract_attribute(html: &str, attr_name: &str) -> (r: Option<String>)
    ensures
        match spec_extract_attribute(html.spec_bytes(), attr_name.spec_bytes()) {
            None => r is None,
            Some(v) => {
                &&& (r is Some <==> valid_utf8(v))
                &&& (r matches Some(out) ==> encode_utf8(out@) == v && out@ == decode_utf8(v))
            },
        },
{
    let hb = html.as_bytes();
    match extract_attr_range(hb, attr_name.as_bytes()) {
        None => None,
        Some((a, b)) => {
            let val = vstd::slice::slice_to_vec(&hb[a..b]);
            string_from_utf8(val)
        },
    }
}

/// Parse an HTML block to extract an image with alignment and width:
/// `(image_src, alignment, width)` when the trimmed fragment is a `<p`
/// tag holding an `<img src=…>`. A source value whose bytes are not
/// valid UTF-8 is dropped.
pub fn parse_html_image(html: &str) -> (r: Option<(String, Option<Alignment>, Option<u32>)>)
    ensures
        match spec_parse_html_image(html.spec_bytes()) {
            None => r is None,
            Some(sv) => {
                &&& (r is Some <==> valid_utf8(sv.0))
                &&& (r matches Some(rt) ==> encode_utf8(rt.0@) == sv.0 && rt.0@ == decode_utf8(sv.0)
                    && rt.1 == sv.1 && rt.2 == sv.2)
            },
        },
{
    let hb = html.as_bytes();
    let t0 = first_non_ws(hb);
    proof {
        lemma_ws_prefix_len_bounds(hb@);
    }
    let afterpre = &hb[t0..hb.len()];
    proof {
        assert(afterpre@ =~= trim_start_bytes(hb@));
        lemma_ws_suffix_len_bounds(afterpre@);
    }
    let t1 = last_non_ws(afterpre);
    let t = &afterpre[0..t1];
    proof {
        assert(t@ =~= trim_bytes(hb@));
    }
    if !starts_with_sub(t, "<p".as_bytes()) {
        return None;
    }
    let alignment = parse_alignment_bytes(t);
    // Locate the `<img` tag and read its attributes.
    let st = match find_sub(t, "<img".as_bytes()) {
        Some(st) => st,
        None => {
            return None;
        },
    };
    proof {
        lemma_first_match_from_props(t@, "<img".spec_bytes(), 0);
    }
    let sect = &t[st..t.len()];
    proof {
        assert(sect@ =~= t@.skip(st as int));
    }
    let (sa, sb) = match extract_attr_range(sect, "src".as_bytes()) {
        Some(p) => p,
        None => {
            return None;
        },
    };
    let width = match extract_attr_range(sect, "width".as_bytes()) {
        None => None,
        Some((wa, wb)) => {
            proof {
                assert(sect@.subrange(wa as int, wb as int) =~= sect@.subrange(
                    wa as int,
                    wb as int,
                ));
            }
            parse_u32(&sect[wa..wb])
        },
    };
    let src_bytes = vstd::slice::slice_to_vec(&sect[sa..sb]);
    match string_from_utf8(src_bytes) {
        None => None,
        Some(src) => Some((src, alignment, width)),
    }
}

} // verus!
