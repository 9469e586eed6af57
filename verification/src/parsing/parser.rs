//! The event-stream reduction that builds the chunk sequence.
//!
//! The markdown event list is folded left to right while carrying the
//! style, table and HTML-block state; [`spec_step`] states what one event
//! does to that state, [`spec_run`] folds a whole list, and
//! [`build_chunks`] is proved to compute exactly that fold. `parse_markdown`
//! runs the outside parser and hands its events to the builder.

use vstd::prelude::*;
use vstd::string::{StringExecFns, StringSliceAdditionalSpecFns};
use vstd::utf8::{decode_utf8, encode_utf8, valid_utf8};
use crate::models::chunk::{ChunkV, TextChunk};
use crate::models::table::{Table, TableV};
use crate::parsing::chunks::{
    clone_opt_string, push_break_chunk, push_code_chunk, push_image_chunk,
    push_image_chunk_with_alignment, push_table_chunk, push_text_chunk, spec_break_chunk,
    spec_code_chunk, spec_image_chunk, spec_opt_view, spec_table_chunk, spec_text_chunk,
    clone_string_vec,
};
use crate::parsing::events::{md_events_of, parse_events, MdEvent, MdEventKind};
use crate::parsing::html::{parse_html_image, spec_parse_html_image};
use crate::parsing::images::{ImageEntry, ImageMeta};
use crate::parsing::position::LineOffsets;

verus! {

/// The reduction state: the chunks built so far plus the style, image,
/// code-block, table and HTML-block context carried between events.
#[verifier::ext_equal]
pub ghost struct BuildStateV {
    pub chunks: Seq<ChunkV>,
    pub bold: bool,
    pub italic: bool,
    pub heading_level: Option<u8>,
    pub image_url: Option<Seq<char>>,
    pub in_code_block: bool,
    pub code_block_lang: Option<Seq<char>>,
    pub in_table: bool,
    pub in_table_head: bool,
    pub table: Option<TableV>,
    pub row: Seq<Seq<char>>,
    pub cell: Seq<char>,
    pub table_start: Option<(int, int)>,
    pub in_html_block: bool,
    pub html: Seq<char>,
    pub html_start: Option<(int, int)>,
}

/// The state before any event: no chunks, no styles, nothing open.
pub open spec fn init_state() -> BuildStateV {
    BuildStateV {
        chunks: Seq::empty(),
        bold: false,
        italic: false,
        heading_level: None,
        image_url: None,
        in_code_block: false,
        code_block_lang: None,
        in_table: false,
        in_table_head: false,
        table: None,
        row: Seq::empty(),
        cell: Seq::empty(),
        table_start: None,
        in_html_block: false,
        html: Seq::empty(),
        html_start: None,
    }
}

/// The last chunk gets a forced block break (when a paragraph or heading
/// closes); an empty sequence stays empty.
pub open spec fn set_last_newline(chunks: Seq<ChunkV>) -> Seq<ChunkV> {
    if chunks.len() == 0 {
        chunks
    } else {
        chunks.update(chunks.len() - 1, ChunkV { newline_after: true, ..chunks.last() })
    }
}

/// What one event does to the reduction state.
///
/// Inline style, heading, code-block and image events are ignored inside
/// a table, where text accumulates into the current cell instead; table
/// and HTML-block boundaries always apply. An HTML block that closes is
/// parsed for an aligned image and yields one image chunk if it holds one
/// (a `src` with invalid UTF-8 bytes is dropped); otherwise it is
/// discarded whole.
pub open spec fn spec_step(st: BuildStateV, ev: MdEvent, bytes: Seq<u8>, images: Seq<ImageEntry>) -> BuildStateV {
    match ev.kind {
        MdEventKind::StartHtmlBlock => BuildStateV {
            in_html_block: true,
            html: Seq::empty(),
            html_start: Some((ev.start as int, ev.end as int)),
            ..st
        },
        MdEventKind::Html(text) => if st.in_html_block {
            BuildStateV { html: st.html + text@, ..st }
        } else {
            st
        },
        MdEventKind::EndHtmlBlock => {
            let parsed = spec_parse_html_image(encode_utf8(st.html));
            if parsed is Some && valid_utf8((parsed->0).0) {
                let sv = parsed->0;
                let range = match st.html_start {
                    Some(r) => r,
                    None => (ev.start as int, ev.end as int),
                };
                BuildStateV {
                    in_html_block: false,
                    chunks: st.chunks.push(
                        spec_image_chunk(
                            decode_utf8(sv.0),
                            bytes,
                            range.0,
                            range.1,
                            sv.1,
                            sv.2,
                            images,
                        ),
                    ),
                    html_start: None,
                    html: Seq::empty(),
                    ..st
                }
            } else {
                BuildStateV { in_html_block: false, html: Seq::empty(), ..st }
            }
        },
        MdEventKind::StartTable(aligns) => BuildStateV {
            in_table: true,
            table: Some(TableV { alignments: aligns@, header: Seq::empty(), rows: Seq::empty() }),
            table_start: Some((ev.start as int, ev.end as int)),
            ..st
        },
        MdEventKind::StartTableHead => BuildStateV { in_table_head: true, ..st },
        MdEventKind::StartTableRow => BuildStateV { row: Seq::empty(), ..st },
        MdEventKind::StartTableCell => BuildStateV { cell: Seq::empty(), ..st },
        MdEventKind::EndTableCell => BuildStateV { row: st.row.push(st.cell), ..st },
        MdEventKind::EndTableRow => match st.table {
            Some(t) => BuildStateV {
                table: Some(
                    if st.in_table_head {
                        TableV { header: st.row, ..t }
                    } else {
                        TableV { rows: t.rows.push(st.row), ..t }
                    },
                ),
                ..st
            },
            None => st,
        },
        // The table head holds its cells directly (there is no row tag
        // inside it): the cells gathered so far become the header row.
        MdEventKind::EndTableHead => match st.table {
            Some(t) => BuildStateV {
                in_table_head: false,
                table: Some(TableV { header: st.row, ..t }),
                ..st
            },
            None => BuildStateV { in_table_head: false, ..st },
        },
        MdEventKind::EndTable => match st.table {
            Some(t) => {
                let range = match st.table_start {
                    Some(r) => r,
                    None => (ev.start as int, ev.end as int),
                };
                BuildStateV {
                    chunks: st.chunks.push(spec_table_chunk(t, bytes, range.0, range.1)),
                    table: None,
                    table_start: None,
                    in_table: false,
                    ..st
                }
            },
            None => BuildStateV { in_table: false, ..st },
        },
        MdEventKind::Text(text) => if st.in_table {
            BuildStateV { cell: st.cell + text@, ..st }
        } else if st.image_url is None {
            BuildStateV {
                chunks: st.chunks.push(
                    spec_text_chunk(
                        text@,
                        bytes,
                        ev.start as int,
                        ev.end as int,
                        st.bold,
                        st.italic,
                        st.in_code_block,
                        st.heading_level,
                        st.code_block_lang,
                    ),
                ),
                ..st
            }
        } else {
            st
        },
        MdEventKind::Code(text) => if st.in_table {
            BuildStateV { cell: st.cell + text@, ..st }
        } else {
            BuildStateV {
                chunks: st.chunks.push(
                    spec_code_chunk(
                        text@,
                        bytes,
                        ev.start as int,
                        ev.end as int,
                        st.bold,
                        st.italic,
                        st.heading_level,
                    ),
                ),
                ..st
            }
        },
        MdEventKind::SoftBreak => if st.in_table {
            st
        } else {
            BuildStateV {
                chunks: st.chunks.push(
                    spec_break_chunk(" ".view(), ev.start as int, ev.end as int, false),
                ),
                ..st
            }
        },
        MdEventKind::HardBreak => if st.in_table {
            st
        } else {
            BuildStateV {
                chunks: st.chunks.push(
                    spec_break_chunk("\n".view(), ev.start as int, ev.end as int, true),
                ),
                ..st
            }
        },
        MdEventKind::StartStrong => if st.in_table {
            st
        } else {
            BuildStateV { bold: true, ..st }
        },
        MdEventKind::EndStrong => if st.in_table {
            st
        } else {
            BuildStateV { bold: false, ..st }
        },
        MdEventKind::StartEmphasis => if st.in_table {
            st
        } else {
            BuildStateV { italic: true, ..st }
        },
        MdEventKind::EndEmphasis => if st.in_table {
            st
        } else {
            BuildStateV { italic: false, ..st }
        },
        MdEventKind::StartHeading(level) => if st.in_table {
            st
        } else {
            BuildStateV { heading_level: Some(level), ..st }
        },
        MdEventKind::EndHeading => if st.in_table {
            st
        } else {
            BuildStateV { heading_level: None, chunks: set_last_newline(st.chunks), ..st }
        },
        MdEventKind::StartCodeBlock(lang) => if st.in_table {
            st
        } else {
            BuildStateV { in_code_block: true, code_block_lang: spec_opt_view(lang), ..st }
        },
        MdEventKind::EndCodeBlock => if st.in_table {
            st
        } else {
            BuildStateV { in_code_block: false, code_block_lang: None, ..st }
        },
        MdEventKind::StartParagraph => st,
        MdEventKind::EndParagraph => if st.in_table {
            st
        } else {
            BuildStateV { chunks: set_last_newline(st.chunks), ..st }
        },
        MdEventKind::StartImage(url) => if st.in_table {
            st
        } else {
            BuildStateV { image_url: Some(url@), ..st }
        },
        MdEventKind::EndImage => if st.in_table {
            st
        } else {
            match st.image_url {
                Some(url) => BuildStateV {
                    chunks: st.chunks.push(
                        spec_image_chunk(
                            url,
                            bytes,
                            ev.start as int,
                            ev.end as int,
                            None,
                            None,
                            images,
                        ),
                    ),
                    image_url: None,
                    ..st
                },
                None => st,
            }
        },
        MdEventKind::Other => st,
    }
}

/// The state after folding a whole event list, left to right.
pub open spec fn spec_run(events: Seq<MdEvent>, bytes: Seq<u8>, images: Seq<ImageEntry>) -> BuildStateV
    decreases events.len(),
{
    if events.len() == 0 {
        init_state()
    } else {
        spec_step(spec_run(events.drop_last(), bytes, images), events.last(), bytes, images)
    }
}

/// The chunk sequence an event list reduces to.
pub open spec fn spec_chunks_of(events: Seq<MdEvent>, bytes: Seq<u8>, images: Seq<ImageEntry>) -> Seq<ChunkV> {
    spec_run(events, bytes, images).chunks
}

/// A chunk's line/column range agrees with its byte range under the
/// source's line index; break chunks instead carry the line-0 sentinel.
pub open spec fn chunk_positions_consistent(c: ChunkV, bytes: Seq<u8>) -> bool {
    ||| (c.line_start == 0 && c.col_start == 0 && c.line_end == 0 && c.col_end == 0)
    ||| {
        &&& c.line_start == crate::parsing::position::spec_line_of(bytes, c.byte_start)
        &&& c.col_start == crate::parsing::position::spec_col_of(bytes, c.byte_start)
        &&& c.line_end == crate::parsing::position::spec_line_of(bytes, c.byte_end)
        &&& c.col_end == crate::parsing::position::spec_col_of(bytes, c.byte_end)
    }
}

/// One event keeps every built chunk position-consistent: it leaves the
/// chunk sequence alone, marks a block break on the last chunk, or pushes
/// one chunk whose positions come from the line index.
proof fn lemma_step_keeps_positions(st: BuildStateV, ev: MdEvent, bytes: Seq<u8>, images: Seq<ImageEntry>)
    requires
        forall|i: int| 0 <= i < st.chunks.len() ==> chunk_positions_consistent(
            #[trigger] st.chunks[i],
            bytes,
        ),
    ensures
        forall|i: int| 0 <= i < spec_step(st, ev, bytes, images).chunks.len()
            ==> chunk_positions_consistent(
            #[trigger] spec_step(st, ev, bytes, images).chunks[i],
            bytes,
        ),
{
    let post = spec_step(st, ev, bytes, images).chunks;
    assert forall|i: int| 0 <= i < post.len() implies chunk_positions_consistent(
        post[i],
        bytes,
    ) by {
        if post == set_last_newline(st.chunks) && st.chunks.len() > 0 {
            assert(chunk_positions_consistent(st.chunks[i], bytes));
        } else if i < st.chunks.len() {
            assert(chunk_positions_consistent(st.chunks[i], bytes));
        }
    }
}

/// Law: every chunk the reduction builds has a line/column range that is
/// consistent with its byte range under the source's line index (break
/// chunks carry the "not positioned" sentinel instead).
pub proof fn lemma_chunks_positions_consistent(events: Seq<MdEvent>, bytes: Seq<u8>, images: Seq<ImageEntry>)
    ensures
        forall|i: int| 0 <= i < spec_chunks_of(events, bytes, images).len()
            ==> chunk_positions_consistent(
            #[trigger] spec_chunks_of(events, bytes, images)[i],
            bytes,
        ),
    decreases events.len(),
{
    if events.len() > 0 {
        lemma_chunks_positions_consistent(events.drop_last(), bytes, images);
        let st = spec_run(events.drop_last(), bytes, images);
        assert(st.chunks == spec_chunks_of(events.drop_last(), bytes, images));
        assert forall|i: int| 0 <= i < st.chunks.len() implies chunk_positions_consistent(
            #[trigger] st.chunks[i],
            bytes,
        ) by {
            assert(chunk_positions_consistent(
                spec_chunks_of(events.drop_last(), bytes, images)[i],
                bytes,
            ));
        }
        lemma_step_keeps_positions(st, events.last(), bytes, images);
        assert(spec_chunks_of(events, bytes, images) == spec_step(
            st,
            events.last(),
            bytes,
            images,
        ).chunks);
    }
}

/// The mutable reduction state as the builder carries it.
struct Builder {
    chunks: Vec<TextChunk>,
    bold: bool,
    italic: bool,
    heading_level: Option<u8>,
    current_image_url: Option<String>,
    in_code_block: bool,
    code_block_lang: Option<String>,
    in_table: bool,
    in_table_head: bool,
    current_table: Option<Table>,
    current_row: Vec<String>,
    current_cell: String,
    table_start: Option<(usize, usize)>,
    in_html_block: bool,
    html_content: String,
    html_start: Option<(usize, usize)>,
}

impl View for Builder {
    type V = BuildStateV;

    closed spec fn view(&self) -> BuildStateV {
        BuildStateV {
            chunks: self.chunks.deep_view(),
            bold: self.bold,
            italic: self.italic,
            heading_level: self.heading_level,
            image_url: match self.current_image_url {
                Some(ref u) => Some(u@),
                None => None,
            },
            in_code_block: self.in_code_block,
            code_block_lang: match self.code_block_lang {
                Some(ref l) => Some(l@),
                None => None,
            },
            in_table: self.in_table,
            in_table_head: self.in_table_head,
            table: match self.current_table {
                Some(ref t) => Some(t@),
                None => None,
            },
            row: self.current_row.deep_view(),
            cell: self.current_cell@,
            table_start: match self.table_start {
                Some(r) => Some((r.0 as int, r.1 as int)),
                None => None,
            },
            in_html_block: self.in_html_block,
            html: self.html_content@,
            html_start: match self.html_start {
                Some(r) => Some((r.0 as int, r.1 as int)),
                None => None,
            },
        }
    }
}

/// Reduce a markdown event list to its chunk sequence.
#[verifier::rlimit(100)]
pub fn build_chunks(events: &Vec<MdEvent>, source: &str, images: &ImageMeta) -> (r: Vec<TextChunk>)
    requires
        source.spec_bytes().len() < usize::MAX,
    ensures
        r.deep_view() == spec_chunks_of(events@, source.spec_bytes(), images.entries@),
{
    let ghost bytes = source.spec_bytes();
    let ghost imgs = images.entries@;
    let line_offsets = LineOffsets::new(source);
    let mut b = Builder {
        chunks: Vec::new(),
        bold: false,
        italic: false,
        heading_level: None,
        current_image_url: None,
        in_code_block: false,
        code_block_lang: None,
        in_table: false,
        in_table_head: false,
        current_table: None,
        current_row: Vec::new(),
        current_cell: String::new(),
        table_start: None,
        in_html_block: false,
        html_content: String::new(),
        html_start: None,
    };
    proof {
        assert(b@ =~= init_state());
        assert(events@.take(0) =~= Seq::<MdEvent>::empty());
    }
    let n = events.len();
    let mut i: usize = 0;
    while i < n
        invariant
            0 <= i <= n,
            n == events@.len(),
            line_offsets.wf(source.spec_bytes()),
            source.spec_bytes().len() < usize::MAX,
            bytes == source.spec_bytes(),
            imgs == images.entries@,
            b@ == spec_run(events@.take(i as int), bytes, imgs),
        decreases n - i,
    {
        let ev = &events[i];
        let ghost pre = b@;
        proof {
            assert(events@.take(i as int + 1).drop_last() =~= events@.take(i as int));
            assert(events@.take(i as int + 1).last() == events@[i as int]);
        }
        match &ev.kind {
            MdEventKind::StartHtmlBlock => {
                b.in_html_block = true;
                b.html_content = String::new();
                b.html_start = Some((ev.start, ev.end));
                proof {
                    assert(b@ =~= spec_step(pre, events@[i as int], bytes, imgs));
                }
            },
            MdEventKind::Html(text) => {
                if b.in_html_block {
                    b.html_content.append(text.as_str());
                }
                proof {
                    assert(b@ =~= spec_step(pre, events@[i as int], bytes, imgs));
                }
            },
            MdEventKind::EndHtmlBlock => {
                b.in_html_block = false;
                match parse_html_image(b.html_content.as_str()) {
                    Some((src, alignment, width)) => {
                        let (hs, he) = match b.html_start.take() {
                            Some(r) => r,
                            None => (ev.start, ev.end),
                        };
                        push_image_chunk_with_alignment(
                            &mut b.chunks,
                            src,
                            source,
                            &line_offsets,
                            hs,
                            he,
                            alignment,
                            width,
                            images,
                        );
                    },
                    None => {},
                }
                b.html_content = String::new();
                proof {
                    assert(b@ =~= spec_step(pre, events@[i as int], bytes, imgs));
                }
            },
            MdEventKind::StartTable(aligns) => {
                b.in_table = true;
                let mut al: Vec<crate::models::table::TableAlign> = Vec::new();
                let m = aligns.len();
                let mut j: usize = 0;
                proof {
                    assert(al@ =~= aligns@.take(0));
                }
                while j < m
                    invariant
                        0 <= j <= m,
                        m == aligns@.len(),
                        al@ == aligns@.take(j as int),
                    decreases m - j,
                {
                    al.push(aligns[j]);
                    proof {
                        assert(aligns@.take(j as int + 1) =~= aligns@.take(j as int).push(
                            aligns@[j as int],
                        ));
                    }
                    j += 1;
                }
                proof {
                    assert(aligns@.take(m as int) =~= aligns@);
                }
                b.current_table = Some(Table::new(al));
                b.table_start = Some((ev.start, ev.end));
                proof {
                    assert(b@ =~= spec_step(pre, events@[i as int], bytes, imgs));
                }
            },
            MdEventKind::StartTableHead => {
                b.in_table_head = true;
                proof {
                    assert(b@ =~= spec_step(pre, events@[i as int], bytes, imgs));
                }
            },
            MdEventKind::StartTableRow => {
                b.current_row = Vec::new();
                proof {
                    assert(b.current_row.deep_view() =~= Seq::<Seq<char>>::empty());
                    assert(b@ =~= spec_step(pre, events@[i as int], bytes, imgs));
                }
            },
            MdEventKind::StartTableCell => {
                b.current_cell = String::new();
                proof {
                    assert(b@ =~= spec_step(pre, events@[i as int], bytes, imgs));
                }
            },
            MdEventKind::EndTableCell => {
                let cell = b.current_cell.clone();
                b.current_row.push(cell);
                proof {
                    assert(b.current_row.deep_view() =~= pre.row.push(pre.cell));
                    assert(b@ =~= spec_step(pre, events@[i as int], bytes, imgs));
                }
            },
            MdEventKind::EndTableRow => {
                match b.current_table.take() {
                    Some(mut t) => {
                        if b.in_table_head {
                            t.header = clone_string_vec(&b.current_row);
                            proof {
                                assert(t.header.deep_view() =~= pre.row);
                            }
                        } else {
                            let row = clone_string_vec(&b.current_row);
                            proof {
                                assert(row.deep_view() =~= pre.row);
                            }
                            let ghost trows = t.rows.deep_view();
                            t.rows.push(row);
                            proof {
                                assert(t.rows.deep_view() =~= trows.push(pre.row));
                            }
                        }
                        b.current_table = Some(t);
                    },
                    None => {},
                }
                proof {
                    assert(b@ =~= spec_step(pre, events@[i as int], bytes, imgs));
                }
            },
            MdEventKind::EndTableHead => {
                b.in_table_head = false;
                match b.current_table.take() {
                    Some(mut t) => {
                        t.header = clone_string_vec(&b.current_row);
                        proof {
                            assert(t.header.deep_view() =~= pre.row);
                        }
                        b.current_table = Some(t);
                    },
                    None => {},
                }
                proof {
                    assert(b@ =~= spec_step(pre, events@[i as int], bytes, imgs));
                }
            },
            MdEventKind::EndTable => {
                match b.current_table.take() {
                    Some(t) => {
                        let (ts, te) = match b.table_start.take() {
                            Some(r) => r,
                            None => (ev.start, ev.end),
                        };
                        push_table_chunk(&mut b.chunks, t, source, &line_offsets, ts, te);
                    },
                    None => {},
                }
                b.in_table = false;
                proof {
                    assert(b@ =~= spec_step(pre, events@[i as int], bytes, imgs));
                }
            },
            MdEventKind::Text(text) => {
                if b.in_table {
                    b.current_cell.append(text.as_str());
                } else if b.current_image_url.is_none() {
                    let text_owned = text.clone();
                    push_text_chunk(
                        &mut b.chunks,
                        text_owned,
                        source,
                        &line_offsets,
                        ev.start,
                        ev.end,
                        b.bold,
                        b.italic,
                        b.in_code_block,
                        b.heading_level,
                        &b.code_block_lang,
                    );
                }
                proof {
                    assert(b@ =~= spec_step(pre, events@[i as int], bytes, imgs));
                }
            },
            MdEventKind::Code(text) => {
                if b.in_table {
                    b.current_cell.append(text.as_str());
                } else {
                    let text_owned = text.clone();
                    push_code_chunk(
                        &mut b.chunks,
                        text_owned,
                        source,
                        &line_offsets,
                        ev.start,
                        ev.end,
                        b.bold,
                        b.italic,
                        b.heading_level,
                    );
                }
                proof {
                    assert(b@ =~= spec_step(pre, events@[i as int], bytes, imgs));
                }
            },
            MdEventKind::SoftBreak => {
                if !b.in_table {
                    let mut text = String::new();
                    text.append(" ");
                    push_break_chunk(&mut b.chunks, text, ev.start, ev.end, false);
                }
                proof {
                    assert(b@ =~= spec_step(pre, events@[i as int], bytes, imgs));
                }
            },
            MdEventKind::HardBreak => {
                if !b.in_table {
                    let mut text = String::new();
                    text.append("\n");
                    push_break_chunk(&mut b.chunks, text, ev.start, ev.end, true);
                }
                proof {
                    assert(b@ =~= spec_step(pre, events@[i as int], bytes, imgs));
                }
            },
            MdEventKind::StartStrong => {
                if !b.in_table {
                    b.bold = true;
                }
                proof {
                    assert(b@ =~= spec_step(pre, events@[i as int], bytes, imgs));
                }
            },
            MdEventKind::EndStrong => {
                if !b.in_table {
                    b.bold = false;
                }
                proof {
                    assert(b@ =~= spec_step(pre, events@[i as int], bytes, imgs));
                }
            },
            MdEventKind::StartEmphasis => {
                if !b.in_table {
                    b.italic = true;
                }
                proof {
                    assert(b@ =~= spec_step(pre, events@[i as int], bytes, imgs));
                }
            },
            MdEventKind::EndEmphasis => {
                if !b.in_table {
                    b.italic = false;
                }
                proof {
                    assert(b@ =~= spec_step(pre, events@[i as int], bytes, imgs));
                }
            },
            MdEventKind::StartHeading(level) => {
                if !b.in_table {
                    b.heading_level = Some(*level);
                }
                proof {
                    assert(b@ =~= spec_step(pre, events@[i as int], bytes, imgs));
                }
            },
            MdEventKind::EndHeading => {
                if !b.in_table {
                    b.heading_level = None;
                    set_last_newline_exec(&mut b.chunks);
                }
                proof {
                    assert(b@ =~= spec_step(pre, events@[i as int], bytes, imgs));
                }
            },
            MdEventKind::StartCodeBlock(lang) => {
                if !b.in_table {
                    b.in_code_block = true;
                    b.code_block_lang = clone_opt_string(lang);
                }
                proof {
                    assert(b@ =~= spec_step(pre, events@[i as int], bytes, imgs));
                }
            },
            MdEventKind::EndCodeBlock => {
                if !b.in_table {
                    b.in_code_block = false;
                    b.code_block_lang = None;
                }
                proof {
                    assert(b@ =~= spec_step(pre, events@[i as int], bytes, imgs));
                }
            },
            MdEventKind::StartParagraph => {
                proof {
                    assert(b@ =~= spec_step(pre, events@[i as int], bytes, imgs));
                }
            },
            MdEventKind::EndParagraph => {
                if !b.in_table {
                    set_last_newline_exec(&mut b.chunks);
                }
                proof {
                    assert(b@ =~= spec_step(pre, events@[i as int], bytes, imgs));
                }
            },
            MdEventKind::StartImage(url) => {
                if !b.in_table {
                    b.current_image_url = Some(url.clone());
                }
                proof {
                    assert(b@ =~= spec_step(pre, events@[i as int], bytes, imgs));
                }
            },
            MdEventKind::EndImage => {
                if !b.in_table {
                    match b.current_image_url.take() {
                        Some(url) => {
                            push_image_chunk(
                                &mut b.chunks,
                                url,
                                source,
                                &line_offsets,
                                ev.start,
                                ev.end,
                                images,
                            );
                        },
                        None => {},
                    }
                }
                proof {
                    assert(b@ =~= spec_step(pre, events@[i as int], bytes, imgs));
                }
            },
            MdEventKind::Other => {
                proof {
                    assert(b@ =~= spec_step(pre, events@[i as int], bytes, imgs));
                }
            },
        }
        i += 1;
    }
    proof {
        assert(events@.take(n as int) =~= events@);
    }
    b.chunks
}

/// Force a block break after the most recently emitted chunk, if any.
fn set_last_newline_exec(chunks: &mut Vec<TextChunk>)
    ensures
        final(chunks).deep_view() == set_last_newline(old(chunks).deep_view()),
{
    match chunks.pop() {
        Some(mut last) => {
            last.newline_after = true;
            chunks.push(last);
            proof {
                assert(chunks.deep_view() =~= set_last_newline(old(chunks).deep_view()));
            }
        },
        None => {
            proof {
                assert(chunks.deep_view() =~= set_last_newline(old(chunks).deep_view()));
            }
        },
    }
}

/// Parse markdown into chunks with position tracking: run the outside
/// markdown parser over the source and reduce its event stream, computing
/// image display heights from the given metadata table.
pub fn parse_markdown(source: &str, images: &ImageMeta) -> (r: Vec<TextChunk>)
    requires
        source.spec_bytes().len() < usize::MAX,
    ensures
        r.deep_view() == spec_chunks_of(
            md_events_of(source@),
            source.spec_bytes(),
            images.entries@,
        ),
{
    let events = parse_events(source);
    build_chunks(&events, source, images)
}

} // verus!
