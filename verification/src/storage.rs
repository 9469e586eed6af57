//! Review file naming: where a review of a document is written, as a
//! path string. The surrounding program chooses the sequence number by
//! scanning the output directory and performs the writes.

use vstd::prelude::*;
use vstd::string::{StrSliceExecFns, StringExecFns};
use crate::text::{dec_digits, string_push, u64_to_string};

verus! {

/// The position of the last occurrence of `c` in `s`.
pub open spec fn spec_last_pos(s: Seq<char>, c: char) -> Option<int>
    decreases s.len(),
{
    if s.len() == 0 {
        None
    } else if s.last() == c {
        Some(s.len() - 1)
    } else {
        spec_last_pos(s.drop_last(), c)
    }
}

/// The final path component of a file name: everything after its last
/// slash.
pub open spec fn spec_file_component(name: Seq<char>) -> Seq<char> {
    match spec_last_pos(name, '/') {
        Some(p) => name.skip(p + 1),
        None => name,
    }
}

/// The base name of a file: its final component without the extension
/// after the last dot; a leading dot does not start an extension. The
/// whole name stands in for components (empty, `.`, `..`) that have no
/// base.
pub open spec fn spec_base_name(name: Seq<char>) -> Seq<char> {
    let comp = spec_file_component(name);
    if comp.len() == 0 || comp == ".".view() || comp == "..".view() {
        name
    } else {
        match spec_last_pos(comp, '.') {
            Some(p) => if p == 0 {
                comp
            } else {
                comp.take(p)
            },
            None => comp,
        }
    }
}

/// The name of review file number `seq` for a document:
/// `<base>.review.<seq>`.
pub open spec fn spec_review_file_name(filename: Seq<char>, seq: int) -> Seq<char> {
    spec_base_name(filename) + ".review.".view() + dec_digits(seq)
}

/// A directory path joined with a file name by a single slash.
pub open spec fn spec_join_path(dir: Seq<char>, name: Seq<char>) -> Seq<char> {
    if dir.len() == 0 {
        name
    } else if dir.last() == '/' {
        dir + name
    } else {
        dir + "/".view() + name
    }
}

/// Storage manager for review files: knows where reviews of a document
/// go and how they are named.
pub struct ReviewStorage {
    pub out_dir: String,
    pub filename: String,
    pub session_id: Option<String>,
}

impl ReviewStorage {
    /// A storage manager writing reviews of `filename` into `out_dir`.
    pub fn new(out_dir: String, filename: String, session_id: Option<String>) -> (r: Self)
        ensures
            r.out_dir@ == out_dir@,
            r.filename@ == filename@,
            r.session_id == session_id,
    {
        ReviewStorage { out_dir, filename, session_id }
    }

    /// The base name of the document, without directory or extension
    /// (`NOTES.md` gives `NOTES`).
    pub fn base_name(&self) -> (r: String)
        ensures
            r@ == spec_base_name(self.filename@),
    {
        let name = &self.filename;
        let n = name.as_str().unicode_len();
        proof {
            lemma_last_pos_bounds(name@, '/');
        }
        let comp_start = match last_char_pos(name.as_str(), '/') {
            Some(p) => p + 1,
            None => 0,
        };
        let comp_len = n - comp_start;
        let comp = copy_char_range(name.as_str(), comp_start, n);
        proof {
            assert(comp@ =~= spec_file_component(self.filename@));
        }
        if comp_len == 0 || str_eq_chars(comp.as_str(), ".") || str_eq_chars(comp.as_str(), "..") {
            return copy_char_range(name.as_str(), 0, n);
        }
        proof {
            lemma_last_pos_bounds(comp@, '.');
        }
        match last_char_pos(comp.as_str(), '.') {
            Some(p) => {
                if p > 0 {
                    let r = copy_char_range(comp.as_str(), 0, p);
                    proof {
                        assert(r@ =~= spec_base_name(self.filename@));
                    }
                    r
                } else {
                    comp
                }
            },
            None => comp,
        }
    }

    /// The path of review file number `seq` for this document:
    /// `<out_dir>/<base>.review.<seq>`. The caller picks `seq` (one past
    /// the highest review number already present).
    pub fn review_file_path(&self, seq: u64) -> (r: String)
        ensures
            r@ == spec_join_path(
                self.out_dir@,
                spec_review_file_name(self.filename@, seq as int),
            ),
    {
        let base = self.base_name();
        let mut name = base;
        name.append(".review.");
        let digits = u64_to_string(seq);
        name.append(digits.as_str());
        let dn = self.out_dir.as_str().unicode_len();
        let mut out = copy_char_range(self.out_dir.as_str(), 0, dn);
        if dn == 0 {
            proof {
                assert(out@ + name@ =~= name@);
            }
            out.append(name.as_str());
            return out;
        }
        let lastc = self.out_dir.as_str().get_char(dn - 1);
        if lastc != '/' {
            out.append("/");
        }
        out.append(name.as_str());
        out
    }
}

/// The position of the last occurrence of a character in a string.
fn last_char_pos(s: &str, c: char) -> (r: Option<usize>)
    ensures
        match r {
            Some(p) => spec_last_pos(s@, c) == Some(p as int),
            None => spec_last_pos(s@, c) is None,
        },
{
    let n = s.unicode_len();
    let mut j: usize = n;
    proof {
        assert(s@.take(n as int) =~= s@);
    }
    while j > 0
        invariant
            0 <= j <= n,
            n == s@.len(),
            spec_last_pos(s@.take(j as int), c) == spec_last_pos(s@, c),
        decreases j,
    {
        let ch = s.get_char(j - 1);
        proof {
            assert(s@.take(j as int).last() == s@[j as int - 1]);
            assert(s@.take(j as int).drop_last() =~= s@.take(j as int - 1));
        }
        if ch == c {
            return Some(j - 1);
        }
        j -= 1;
    }
    None
}

proof fn lemma_last_pos_bounds(s: Seq<char>, c: char)
    ensures
        spec_last_pos(s, c) matches Some(p) ==> 0 <= p < s.len(),
    decreases s.len(),
{
    if s.len() > 0 && s.last() != c {
        lemma_last_pos_bounds(s.drop_last(), c);
    }
}

/// The characters of `s` from position `a` up to `b`, as a new string.
fn copy_char_range(s: &str, a: usize, b: usize) -> (r: String)
    requires
        0 <= a <= b <= s@.len(),
    ensures
        r@ == s@.subrange(a as int, b as int),
{
    let mut out = String::new();
    let mut i = a;
    proof {
        assert(out@ =~= s@.subrange(a as int, a as int));
    }
    while i < b
        invariant
            a <= i <= b <= s@.len(),
            out@ == s@.subrange(a as int, i as int),
        decreases b - i,
    {
        let c = s.get_char(i);
        string_push(&mut out, c);
        proof {
            assert(s@.subrange(a as int, i as int + 1) =~= s@.subrange(a as int, i as int).push(
                s@[i as int],
            ));
        }
        i += 1;
    }
    out
}

/// Whether a string's characters equal another's.
fn str_eq_chars(a: &str, b: &str) -> (r: bool)
    ensures
        r == (a@ == b@),
{
    let na = a.unicode_len();
    let nb = b.unicode_len();
    if na != nb {
        return false;
    }
    let mut i: usize = 0;
    while i < na
        invariant
            0 <= i <= na,
            na == a@.len(),
            na == b@.len(),
            forall|k: int| 0 <= k < i ==> a@[k] == b@[k],
        decreases na - i,
    {
        if a.get_char(i) != b.get_char(i) {
            return false;
        }
        i += 1;
    }
    proof {
        assert(a@ =~= b@);
    }
    true
}

} // verus!
