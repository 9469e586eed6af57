//! Unit tests for the frame-time logic: inline batching, interpolation
//! helpers, viewport culling, the selection manager and review storage
//! paths.

use mirror::models::LayoutMap;
use mirror::models::Selection;
use mirror::models::TextChunk;
use mirror::rendering::InlineTextBatcher;
use mirror::rendering::SelectionManager;
use mirror::rendering::ViewportCuller;
use mirror::rendering::comments::extract_text_snippet;
use mirror::rendering::helpers::calculate_line_from_y;
use mirror::rendering::helpers::estimate_table_height;
use mirror::rendering::helpers::estimate_text_height;
use mirror::rendering::helpers::get_cached_or_estimated_height;
use mirror::rendering::viewport::RectU;
use mirror::storage::ReviewStorage;

fn create_text_chunk(text: &str, newline_after: bool) -> TextChunk {
    TextChunk {
        text: text.to_string(),
        byte_start: 0,
        byte_end: text.len(),
        line_start: 1,
        col_start: 1,
        line_end: 1,
        col_end: text.len(),
        bold: false,
        italic: false,
        code: false,
        heading_level: None,
        newline_after,
        image_path: None,
        alignment: None,
        image_width: None,
        image_height: None,
        code_block_lang: None,
        table: None,
        cached_height: None,
    }
}

#[test]
fn test_is_inline_chunk_basic_text() {
    let chunk = create_text_chunk("Hello world", false);
    assert!(InlineTextBatcher::is_inline_chunk(&chunk));
}

#[test]
fn test_is_inline_chunk_with_newline() {
    let chunk = create_text_chunk("Hello world", true);
    assert!(!InlineTextBatcher::is_inline_chunk(&chunk));
}

#[test]
fn test_is_inline_chunk_with_bullet() {
    let chunk = create_text_chunk("- List item", false);
    assert!(!InlineTextBatcher::is_inline_chunk(&chunk));
}

#[test]
fn test_is_inline_chunk_with_image() {
    let mut chunk = create_text_chunk("Alt text", false);
    chunk.image_path = Some("/path/to/image.png".to_string());
    assert!(!InlineTextBatcher::is_inline_chunk(&chunk));
}

#[test]
fn test_is_inline_chunk_with_code_block() {
    let mut chunk = create_text_chunk("fn main() {}", false);
    chunk.code_block_lang = Some("rust".to_string());
    assert!(!InlineTextBatcher::is_inline_chunk(&chunk));
}

#[test]
fn test_is_inline_chunk_with_heading() {
    let mut chunk = create_text_chunk("Heading", false);
    chunk.heading_level = Some(1);
    assert!(!InlineTextBatcher::is_inline_chunk(&chunk));
}

#[test]
fn test_find_inline_batch_simple() {
    let chunks = vec![
        create_text_chunk("Hello ", false),
        create_text_chunk("world", true),
    ];

    let result = InlineTextBatcher::find_inline_batch(&chunks, 0);
    assert_eq!(result, Some((0, 2)));
}

#[test]
fn test_find_inline_batch_stops_at_non_inline() {
    let chunks = vec![
        create_text_chunk("Hello ", false),
        create_text_chunk("world", false),
        {
            let mut chunk = create_text_chunk("Image", false);
            chunk.image_path = Some("img.png".to_string());
            chunk
        },
    ];

    let result = InlineTextBatcher::find_inline_batch(&chunks, 0);
    assert_eq!(result, Some((0, 2)));
}

#[test]
fn test_find_inline_batch_none_for_non_inline() {
    let chunks = vec![{
        let mut chunk = create_text_chunk("Code", false);
        chunk.code_block_lang = Some("rust".to_string());
        chunk
    }];

    let result = InlineTextBatcher::find_inline_batch(&chunks, 0);
    assert_eq!(result, None);
}

#[test]
fn test_starts_with_bullet_variations() {
    assert!(InlineTextBatcher::starts_with_bullet("- item"));
    assert!(InlineTextBatcher::starts_with_bullet("* item"));
    assert!(InlineTextBatcher::starts_with_bullet("+ item"));
    assert!(InlineTextBatcher::starts_with_bullet("  - item"));
    assert!(!InlineTextBatcher::starts_with_bullet("Not a list"));
    assert!(!InlineTextBatcher::starts_with_bullet("-no space"));
}

#[test]
fn test_calculate_line_from_y() {
    // Chunk spanning lines 10-15 over the vertical range 100..200.
    // Each line gets 100 / 6 = 16 units.

    // The very top is line 10.
    assert_eq!(calculate_line_from_y(10, 15, 100, 200, 100), 10);

    // The middle lands around line 13.
    let mid_line = calculate_line_from_y(10, 15, 100, 200, 150);
    assert!(mid_line >= 12 && mid_line <= 13);

    // Just above the bottom is line 15.
    assert_eq!(calculate_line_from_y(10, 15, 100, 200, 199), 15);
}

#[test]
fn test_calculate_line_from_y_monotone_in_y() {
    let mut prev = calculate_line_from_y(10, 15, 100, 200, 100);
    assert_eq!(prev, 10);
    for y in 100..200u64 {
        let line = calculate_line_from_y(10, 15, 100, 200, y);
        assert!(line >= prev, "computed line went up the page");
        assert!((10..=15).contains(&line));
        prev = line;
    }
    assert_eq!(calculate_line_from_y(10, 15, 100, 200, 199), 15);
}

#[test]
fn test_calculate_line_single_line_chunk() {
    assert_eq!(calculate_line_from_y(5, 5, 50, 70, 60), 5);
}

#[test]
fn test_estimate_text_height() {
    let min_line_height = 18;
    let chunk = create_text_chunk("line1\nline2\nline3", false);

    let height = estimate_text_height(&chunk, min_line_height);
    assert!(height > 0);
    assert_eq!(height, 3 * min_line_height);
}

#[test]
fn test_estimate_table_height() {
    // Row count plus one header row, times the line height.
    assert_eq!(estimate_table_height(2, 20), 60);
}

#[test]
fn test_get_cached_height_when_present() {
    let mut chunk = create_text_chunk("test", false);
    chunk.cached_height = Some(42);

    assert_eq!(get_cached_or_estimated_height(&chunk, 100), 42);
}

#[test]
fn test_get_cached_height_falls_back_to_estimate() {
    let chunk = create_text_chunk("test", false);

    assert_eq!(get_cached_or_estimated_height(&chunk, 100), 100);
}

#[test]
fn test_get_height_with_cache() {
    let mut chunk = create_text_chunk("test", false);
    chunk.cached_height = Some(42);

    assert_eq!(ViewportCuller::get_height(&chunk, 100), 42);
}

#[test]
fn test_get_height_without_cache() {
    let chunk = create_text_chunk("test", false);
    assert_eq!(ViewportCuller::get_height(&chunk, 100), 100);
}

#[test]
fn test_create_approx_rect() {
    let rect = ViewportCuller::create_approx_rect(10, 20, 100, 50);

    assert_eq!(rect.min_x, 10);
    assert_eq!(rect.min_y, 20);
    assert_eq!(rect.max_x - rect.min_x, 100);
    assert_eq!(rect.max_y - rect.min_y, 50);
}

#[test]
fn test_should_render_flips_past_viewport() {
    let viewport = RectU { min_x: 0, min_y: 0, max_x: 800, max_y: 600 };
    let mut culler = ViewportCuller::new(viewport);

    // Inside and near the viewport: render.
    assert!(culler.should_render(0));
    assert!(culler.should_render(599));
    assert!(culler.should_render(1600));
    // This call still returns true but trips the sticky flag.
    assert!(culler.should_render(1601));
    // From then on nothing below renders.
    assert!(!culler.should_render(1700));
    assert!(!culler.should_render(0));
}

#[test]
fn test_intersects_viewport() {
    let viewport = RectU { min_x: 0, min_y: 0, max_x: 800, max_y: 600 };
    let culler = ViewportCuller::new(viewport);

    assert!(culler.intersects_viewport(RectU { min_x: 10, min_y: 10, max_x: 20, max_y: 20 }));
    assert!(!culler.intersects_viewport(RectU { min_x: 10, min_y: 700, max_x: 20, max_y: 800 }));
}

#[test]
fn test_selection_manager_single_line_click() {
    let mut selection = Selection::default();
    SelectionManager::handle_single_line_interaction(&mut selection, true, 7);

    assert_eq!(selection.start_line, Some(7));
    assert_eq!(selection.end_line, Some(7));
    assert!(!selection.is_dragging);
    assert!(selection.is_active());
}

#[test]
fn test_selection_manager_drag_start_and_hover() {
    let mut selection = Selection::default();
    let chunk = create_text_chunk("text", false);

    // Drag starts on a single-line chunk at its top edge.
    let clicked = SelectionManager::handle_interaction(
        &mut selection,
        &chunk,
        100,
        120,
        true,
        Some(100),
        false,
    );
    assert!(!clicked);
    assert!(selection.is_dragging);
    assert_eq!(selection.start_line, Some(1));

    // Hovering over a later chunk extends the selection there.
    let mut layout_map = LayoutMap::new();
    layout_map.record_chunk(1, 1, 100, 120);
    layout_map.record_chunk(5, 10, 120, 220);
    SelectionManager::update_from_hover(&mut selection, &layout_map, Some(180));
    assert_eq!(selection.start_line, Some(1));
    assert_eq!(selection.end_line, Some(8));

    // Releasing the pointer keeps the range.
    SelectionManager::handle_drag_release(&mut selection, false);
    assert!(!selection.is_dragging);
    assert!(selection.is_active());
}

#[test]
fn test_extract_text_snippet_lines() {
    let source = "one\ntwo\nthree\nfour";
    assert_eq!(extract_text_snippet(source, 2, 3), "two\nthree");
    assert_eq!(extract_text_snippet(source, 1, 1), "one");
    assert_eq!(extract_text_snippet(source, 4, 9), "four");
    assert_eq!(extract_text_snippet(source, 9, 12), "");
}

#[test]
fn test_review_storage_paths() {
    let storage = ReviewStorage::new(
        "out".to_string(),
        "NOTES.md".to_string(),
        Some("session".to_string()),
    );
    assert_eq!(storage.base_name(), "NOTES");
    assert_eq!(storage.review_file_path(1), "out/NOTES.review.1");
    assert_eq!(storage.review_file_path(12), "out/NOTES.review.12");

    let nested = ReviewStorage::new("d/".to_string(), "docs/a.b.md".to_string(), None);
    assert_eq!(nested.base_name(), "a.b");
    assert_eq!(nested.review_file_path(3), "d/a.b.review.3");
}
