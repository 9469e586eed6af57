//! Byte-level text utilities shared by the parser and the models: substring
//! search, ASCII-whitespace trimming, decimal parsing and formatting.
//!
//! All functions work on the UTF-8 bytes of the text they are given; the
//! patterns they look for are ASCII, so byte positions found here are always
//! character boundaries.

use vstd::prelude::*;

verus! {

/// ASCII whitespace: space, tab, line feed, vertical tab, form feed,
/// carriage return.
pub open spec fn is_ascii_ws(b: u8) -> bool {
    b == 0x20 || 0x09 <= b <= 0x0D
}

/// Number of leading ASCII-whitespace bytes.
pub open spec fn ws_prefix_len(s: Seq<u8>) -> int
    decreases s.len(),
{
    if s.len() == 0 || !is_ascii_ws(s[0]) {
        0
    } else {
        1 + ws_prefix_len(s.drop_first())
    }
}

/// `s` with its leading ASCII whitespace removed.
pub open spec fn trim_start_bytes(s: Seq<u8>) -> Seq<u8> {
    s.skip(ws_prefix_len(s))
}

pub proof fn lemma_ws_prefix_len_bounds(s: Seq<u8>)
    ensures
        0 <= ws_prefix_len(s) <= s.len(),
        forall|k: int| 0 <= k < ws_prefix_len(s) ==> is_ascii_ws(s[k]),
        ws_prefix_len(s) < s.len() ==> !is_ascii_ws(s[ws_prefix_len(s)]),
    decreases s.len(),
{
    if s.len() != 0 && is_ascii_ws(s[0]) {
        lemma_ws_prefix_len_bounds(s.drop_first());
        assert forall|k: int| 0 <= k < ws_prefix_len(s) implies is_ascii_ws(s[k]) by {
            if k > 0 {
                assert(s.drop_first()[k - 1] == s[k]);
            }
        }
    }
}

/// Index of the first byte that is not ASCII whitespace (the length of the
/// whitespace prefix).
pub fn first_non_ws(s: &[u8]) -> (r: usize)
    ensures
        r == ws_prefix_len(s@),
{
    let n = s.len();
    let mut i: usize = 0;
    proof {
        assert(s@.skip(0) =~= s@);
    }
    while i < n
        invariant
            0 <= i <= n,
            n == s@.len(),
            ws_prefix_len(s@.skip(i as int)) + i == ws_prefix_len(s@),
        decreases n - i,
    {
        let b = s[i];
        proof {
            assert(s@.skip(i as int)[0] == s@[i as int]);
            assert(s@.skip(i as int).drop_first() =~= s@.skip(i as int + 1));
        }
        if !(b == 0x20 || (0x09 <= b && b <= 0x0D)) {
            return i;
        }
        i += 1;
    }
    proof {
        assert(s@.skip(n as int) =~= Seq::<u8>::empty());
    }
    n
}

/// Number of trailing ASCII-whitespace bytes.
pub open spec fn ws_suffix_len(s: Seq<u8>) -> int
    decreases s.len(),
{
    if s.len() == 0 || !is_ascii_ws(s.last()) {
        0
    } else {
        1 + ws_suffix_len(s.drop_last())
    }
}

/// `s` with its trailing ASCII whitespace removed.
pub open spec fn trim_end_bytes(s: Seq<u8>) -> Seq<u8> {
    s.take(s.len() - ws_suffix_len(s))
}

/// `s` with leading and trailing ASCII whitespace removed.
pub open spec fn trim_bytes(s: Seq<u8>) -> Seq<u8> {
    trim_end_bytes(trim_start_bytes(s))
}

pub proof fn lemma_ws_suffix_len_bounds(s: Seq<u8>)
    ensures
        0 <= ws_suffix_len(s) <= s.len(),
    decreases s.len(),
{
    if s.len() != 0 && is_ascii_ws(s.last()) {
        lemma_ws_suffix_len_bounds(s.drop_last());
    }
}

/// Index just after the last byte that is not ASCII whitespace (the length
/// of `s` minus its whitespace suffix).
pub fn last_non_ws(s: &[u8]) -> (r: usize)
    ensures
        r == s@.len() - ws_suffix_len(s@),
{
    let n = s.len();
    let mut j: usize = n;
    proof {
        assert(s@.take(n as int) =~= s@);
    }
    while j > 0
        invariant
            0 <= j <= n,
            n == s@.len(),
            ws_suffix_len(s@.take(j as int)) + (n - j) == ws_suffix_len(s@),
        decreases j,
    {
        let b = s[j - 1];
        proof {
            assert(s@.take(j as int).last() == s@[j as int - 1]);
            assert(s@.take(j as int).drop_last() =~= s@.take(j as int - 1));
        }
        if !(b == 0x20 || (0x09 <= b && b <= 0x0D)) {
            return j;
        }
        j -= 1;
    }
    0
}

/// Append the bytes of `src` to `dst`.
pub fn append_bytes(dst: &mut Vec<u8>, src: &[u8])
    ensures
        final(dst)@ == old(dst)@ + src@,
{
    let n = src.len();
    let mut i: usize = 0;
    proof {
        assert(dst@ =~= old(dst)@ + src@.take(0));
    }
    while i < n
        invariant
            0 <= i <= n,
            n == src@.len(),
            dst@ == old(dst)@ + src@.take(i as int),
        decreases n - i,
    {
        dst.push(src[i]);
        proof {
            assert(old(dst)@ + src@.take(i as int + 1) =~= (old(dst)@ + src@.take(i as int)).push(
                src@[i as int],
            ));
        }
        i += 1;
    }
    proof {
        assert(src@.take(n as int) =~= src@);
    }
}

/// The pattern occurs in `s` at position `i`.
pub open spec fn match_at(s: Seq<u8>, pat: Seq<u8>, i: int) -> bool {
    0 <= i && i + pat.len() <= s.len() && s.subrange(i, i + pat.len()) == pat
}

/// The first position at or after `i` where the pattern occurs, if any.
pub open spec fn first_match_from(s: Seq<u8>, pat: Seq<u8>, i: int) -> Option<int>
    decreases s.len() - i + 1,
{
    if i + pat.len() > s.len() {
        None
    } else if match_at(s, pat, i) {
        Some(i)
    } else {
        first_match_from(s, pat, i + 1)
    }
}

/// The first position where the pattern occurs in `s`, if any.
pub open spec fn find_spec(s: Seq<u8>, pat: Seq<u8>) -> Option<int> {
    first_match_from(s, pat, 0)
}

/// Whether the pattern occurs anywhere in `s`.
pub open spec fn contains_spec(s: Seq<u8>, pat: Seq<u8>) -> bool {
    find_spec(s, pat) is Some
}

/// A found match is a real match, and is the first one.
pub proof fn lemma_first_match_from_props(s: Seq<u8>, pat: Seq<u8>, i: int)
    ensures
        match first_match_from(s, pat, i) {
            Some(j) => match_at(s, pat, j) && i <= j && forall|k: int|
                i <= k < j ==> !match_at(s, pat, k),
            None => forall|k: int| k >= i ==> !match_at(s, pat, k),
        },
    decreases s.len() - i + 1,
{
    if i + pat.len() > s.len() {
        assert forall|k: int| k >= i implies !match_at(s, pat, k) by {}
    } else if match_at(s, pat, i) {
    } else {
        lemma_first_match_from_props(s, pat, i + 1);
    }
}

/// Whether `pat` matches `s` at position `i`, by direct comparison.
pub fn eq_at(s: &[u8], pat: &[u8], i: usize) -> (r: bool)
    requires
        i + pat@.len() <= s@.len(),
    ensures
        r == match_at(s@, pat@, i as int),
{
    let n = s.len();
    let m = pat.len();
    let mut j: usize = 0;
    while j < m
        invariant
            0 <= j <= m,
            n == s@.len(),
            m == pat@.len(),
            i + m <= n,
            forall|k: int| 0 <= k < j ==> s@[i + k] == pat@[k],
        decreases m - j,
    {
        if s[i + j] != pat[j] {
            assert(s@.subrange(i as int, i + m) != pat@) by {
                assert(s@.subrange(i as int, i + m)[j as int] == s@[i + j]);
            }
            return false;
        }
        j += 1;
    }
    assert(s@.subrange(i as int, i + m) =~= pat@);
    true
}

/// Position of the first occurrence of `pat` in `s`, scanning left to right.
pub fn find_sub(s: &[u8], pat: &[u8]) -> (r: Option<usize>)
    ensures
        match r {
            Some(j) => find_spec(s@, pat@) == Some(j as int),
            None => find_spec(s@, pat@) is None,
        },
{
    let n = s.len();
    let m = pat.len();
    if m > n {
        return None;
    }
    if m == 0 {
        proof {
            assert(s@.subrange(0, 0) =~= pat@);
        }
        return Some(0);
    }
    let mut i: usize = 0;
    while i <= n - m
        invariant
            0 <= i <= n - m + 1,
            0 < m <= n,
            n == s@.len(),
            m == pat@.len(),
            first_match_from(s@, pat@, i as int) == find_spec(s@, pat@),
        decreases n - i,
    {
        if eq_at(s, pat, i) {
            return Some(i);
        }
        i += 1;
    }
    None
}

/// Whether `pat` occurs anywhere in `s`.
pub fn contains_sub(s: &[u8], pat: &[u8]) -> (r: bool)
    ensures
        r == contains_spec(s@, pat@),
{
    find_sub(s, pat).is_some()
}

/// Whether `s` begins with `pat`.
pub fn starts_with_sub(s: &[u8], pat: &[u8]) -> (r: bool)
    ensures
        r == match_at(s@, pat@, 0),
{
    if pat.len() > s.len() {
        return false;
    }
    eq_at(s, pat, 0)
}

/// ASCII decimal digit.
pub open spec fn is_digit(b: u8) -> bool {
    0x30 <= b <= 0x39
}

/// All bytes are ASCII decimal digits.
pub open spec fn all_digits(s: Seq<u8>) -> bool {
    forall|k: int| 0 <= k < s.len() ==> is_digit(#[trigger] s[k])
}

/// Value of a digit string read as a decimal number.
pub open spec fn dec_val(s: Seq<u8>) -> int
    decreases s.len(),
{
    if s.len() == 0 {
        0
    } else {
        dec_val(s.drop_last()) * 10 + (s.last() - 0x30)
    }
}

proof fn lemma_dec_val_nonneg(s: Seq<u8>)
    requires
        all_digits(s),
    ensures
        dec_val(s) >= 0,
    decreases s.len(),
{
    if s.len() > 0 {
        assert(all_digits(s.drop_last())) by {
            assert(forall|k: int| 0 <= k < s.len() - 1 ==> s.drop_last()[k] == s[k]);
        }
        lemma_dec_val_nonneg(s.drop_last());
    }
}

proof fn lemma_dec_val_grows(s: Seq<u8>, i: int)
    requires
        all_digits(s),
        0 <= i <= s.len(),
    ensures
        dec_val(s.take(i)) <= dec_val(s),
    decreases s.len() - i,
{
    if i < s.len() {
        lemma_dec_val_grows(s, i + 1);
        assert(s.take(i + 1).drop_last() =~= s.take(i));
        assert(all_digits(s.take(i))) by {
            assert(forall|k: int| 0 <= k < i ==> s.take(i)[k] == s[k]);
        }
        lemma_dec_val_nonneg(s.take(i));
        assert(dec_val(s.take(i + 1)) == dec_val(s.take(i)) * 10 + (s[i] - 0x30));
        assert(dec_val(s.take(i)) * 10 >= dec_val(s.take(i))) by (nonlinear_arith)
            requires dec_val(s.take(i)) >= 0;
    } else {
        assert(s.take(i) =~= s);
    }
}

/// Parse an unsigned decimal integer: succeeds exactly on non-empty
/// all-digit strings whose value fits in a `u32`.
pub fn parse_u32(s: &[u8]) -> (r: Option<u32>)
    ensures
        match r {
            Some(v) => s@.len() > 0 && all_digits(s@) && v as int == dec_val(s@),
            None => s@.len() == 0 || !all_digits(s@) || dec_val(s@) > u32::MAX,
        },
{
    let n = s.len();
    if n == 0 {
        return None;
    }
    let mut acc: u32 = 0;
    let mut i: usize = 0;
    while i < n
        invariant
            0 <= i <= n,
            n == s@.len(),
            all_digits(s@.take(i as int)),
            acc as int == dec_val(s@.take(i as int)),
        decreases n - i,
    {
        let b = s[i];
        if !(0x30 <= b && b <= 0x39) {
            assert(!all_digits(s@));
            return None;
        }
        let d = (b - 0x30) as u32;
        proof {
            assert(s@.take(i as int + 1).drop_last() =~= s@.take(i as int));
            assert(all_digits(s@.take(i as int + 1)));
        }
        if acc > (u32::MAX - d) / 10 {
            proof {
                lemma_dec_val_nonneg(s@.take(i as int));
                assert(dec_val(s@.take(i as int + 1)) > u32::MAX) by (nonlinear_arith)
                    requires
                        dec_val(s@.take(i as int + 1)) == dec_val(s@.take(i as int)) * 10 + d,
                        dec_val(s@.take(i as int)) == acc as int,
                        acc > (u32::MAX - d) / 10,
                        0 <= d <= 9,
                        acc >= 0;
            }
            let all = all_digits_exec(s);
            proof {
                if all {
                    lemma_dec_val_grows(s@, i as int + 1);
                }
            }
            return None;
        }
        acc = acc * 10 + d;
        i += 1;
    }
    proof {
        assert(s@.take(n as int) =~= s@);
    }
    Some(acc)
}

/// Whether every byte is an ASCII decimal digit.
fn all_digits_exec(s: &[u8]) -> (r: bool)
    ensures
        r == all_digits(s@),
{
    let n = s.len();
    let mut i: usize = 0;
    while i < n
        invariant
            0 <= i <= n,
            n == s@.len(),
            forall|k: int| 0 <= k < i ==> is_digit(#[trigger] s@[k]),
        decreases n - i,
    {
        let b = s[i];
        if !(0x30 <= b && b <= 0x39) {
            return false;
        }
        i += 1;
    }
    true
}

/// Decimal digit characters of `n`, most significant first.
pub open spec fn dec_digits(n: int) -> Seq<char>
    decreases n,
{
    if n < 10 {
        seq![dec_digit_char(n)]
    } else {
        dec_digits(n / 10).push(dec_digit_char(n % 10))
    }
}

/// The character for a single decimal digit.
pub open spec fn dec_digit_char(d: int) -> char {
    ((0x30 + d) as u8) as char
}

/// Relies on String::push: appends exactly the given character.
#[verifier::external_body]
pub fn string_push(s: &mut String, c: char)
    ensures
        final(s)@ == old(s)@.push(c),
{
    s.push(c);
}

/// Characters of a reversed digit list: least significant digit first in
/// the list, most significant first in the result.
pub open spec fn digits_of_rev(rev: Seq<u8>) -> Seq<char>
    decreases rev.len(),
{
    if rev.len() == 0 {
        Seq::empty()
    } else {
        digits_of_rev(rev.drop_first()).push(dec_digit_char(rev[0] as int))
    }
}

proof fn lemma_digits_of_rev_push(rev: Seq<u8>, d: u8)
    ensures
        digits_of_rev(rev.push(d)) =~= seq![dec_digit_char(d as int)] + digits_of_rev(rev),
    decreases rev.len(),
{
    if rev.len() == 0 {
        assert(rev.push(d).drop_first() =~= Seq::<u8>::empty());
        assert(digits_of_rev(rev.push(d)) == digits_of_rev(Seq::<u8>::empty()).push(
            dec_digit_char(d as int),
        ));
    } else {
        assert(rev.push(d).drop_first() =~= rev.drop_first().push(d));
        lemma_digits_of_rev_push(rev.drop_first(), d);
        assert(digits_of_rev(rev.push(d)) == digits_of_rev(rev.drop_first().push(d)).push(
            dec_digit_char(rev[0] as int),
        ));
        assert(digits_of_rev(rev) == digits_of_rev(rev.drop_first()).push(
            dec_digit_char(rev[0] as int),
        ));
    }
}

/// Format `n` in decimal, without sign or padding.
pub fn u64_to_string(n: u64) -> (r: String)
    ensures
        r@ == dec_digits(n as int),
{
    let mut rev: Vec<u8> = Vec::new();
    let mut m = n;
    while m >= 10
        invariant
            dec_digits(n as int) =~= dec_digits(m as int) + digits_of_rev(rev@),
            forall|k: int| 0 <= k < rev@.len() ==> rev@[k] <= 9,
        decreases m,
    {
        let d = (m % 10) as u8;
        let ghost prev_m = m as int;
        let ghost prev_rev = rev@;
        m = m / 10;
        rev.push(d);
        proof {
            lemma_digits_of_rev_push(prev_rev, d);
            assert(dec_digits(prev_m) == dec_digits(prev_m / 10).push(dec_digit_char(prev_m % 10)));
            assert(dec_digits(m as int) + digits_of_rev(rev@) =~= dec_digits(prev_m)
                + digits_of_rev(prev_rev));
        }
    }
    let mut out = String::new();
    string_push(&mut out, (0x30 + (m as u8)) as char);
    assert(out@ =~= dec_digits(m as int));
    let mut i = rev.len();
    proof {
        assert(rev@.skip(i as int) =~= Seq::<u8>::empty());
    }
    while i > 0
        invariant
            0 <= i <= rev@.len(),
            out@ =~= dec_digits(m as int) + digits_of_rev(rev@.skip(i as int)),
            dec_digits(n as int) =~= dec_digits(m as int) + digits_of_rev(rev@),
            forall|k: int| 0 <= k < rev@.len() ==> rev@[k] <= 9,
            m < 10,
        decreases i,
    {
        i -= 1;
        let d = rev[i];
        proof {
            assert(rev@.skip(i as int).drop_first() =~= rev@.skip(i as int + 1));
            assert(rev@.skip(i as int)[0] == rev@[i as int]);
        }
        string_push(&mut out, (0x30 + d) as char);
    }
    proof {
        assert(rev@.skip(0) =~= rev@);
        assert(out@ =~= dec_digits(n as int));
    }
    out
}

} // verus!
