//! Markdown table data: column alignments, a header row and body rows.

use vstd::prelude::*;

verus! {

/// Column alignment of a markdown table. Columns without an explicit
/// alignment marker are `Unspecified`.
#[derive(Clone, Copy, Debug, PartialEq, Eq, Structural)]
pub enum TableAlign {
    Unspecified,
    Left,
    Center,
    Right,
}

/// A parsed markdown table. `alignments.len()` need not equal the row
/// width; missing alignment entries count as unspecified.
#[derive(Debug)]
pub struct Table {
    /// Column alignments, one per column as far as the source gave them.
    pub alignments: Vec<TableAlign>,
    /// Header row (cell texts, in column order); empty if absent.
    pub header: Vec<String>,
    /// Body rows, each a list of cell texts in column order.
    pub rows: Vec<Vec<String>>,
}

/// Mathematical value of a [`Table`].
#[verifier::ext_equal]
pub ghost struct TableV {
    pub alignments: Seq<TableAlign>,
    pub header: Seq<Seq<char>>,
    pub rows: Seq<Seq<Seq<char>>>,
}

impl View for Table {
    type V = TableV;

    open spec fn view(&self) -> TableV {
        TableV {
            alignments: self.alignments@,
            header: self.header.deep_view(),
            rows: self.rows.deep_view(),
        }
    }
}

impl DeepView for Table {
    type V = TableV;

    open spec fn deep_view(&self) -> TableV {
        self.view()
    }
}

impl TableAlign {
    /// The alignment for a numeric code, in declaration order: 0 means
    /// unspecified, then left, center, right; anything else counts as
    /// unspecified.
    pub fn from_code(code: u8) -> (r: Self)
        ensures
            r == spec_align_from_code(code),
    {
        match code {
            1 => TableAlign::Left,
            2 => TableAlign::Center,
            3 => TableAlign::Right,
            _ => TableAlign::Unspecified,
        }
    }
}

/// The alignment a numeric code stands for.
pub open spec fn spec_align_from_code(code: u8) -> TableAlign {
    if code == 1 {
        TableAlign::Left
    } else if code == 2 {
        TableAlign::Center
    } else if code == 3 {
        TableAlign::Right
    } else {
        TableAlign::Unspecified
    }
}

impl Table {
    /// A table with the given column alignments and no rows yet.
    pub fn new(alignments: Vec<TableAlign>) -> (r: Self)
        ensures
            r@.alignments == alignments@,
            r@.header == Seq::<Seq<char>>::empty(),
            r@.rows == Seq::<Seq<Seq<char>>>::empty(),
    {
        let r = Table { alignments, header: Vec::new(), rows: Vec::new() };
        assert(r@.header =~= Seq::<Seq<char>>::empty());
        assert(r@.rows =~= Seq::<Seq<Seq<char>>>::empty());
        r
    }
}

} // verus!
