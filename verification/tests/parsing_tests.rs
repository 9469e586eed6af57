//! Unit tests for the parsing layer: markdown to positioned chunks.

use mirror::parsing::byte_to_line_col;
use mirror::parsing::images::ImageMeta;
use mirror::parsing::parse_markdown;
use mirror::models::TableAlign;

fn parse(source: &str) -> Vec<mirror::models::TextChunk> {
    let images = ImageMeta::new();
    parse_markdown(source, &images)
}

#[test]
fn test_byte_to_line_col() {
    let source = "line 1\nline 2\nline 3";
    assert_eq!(byte_to_line_col(source, 0), (1, 1));
    assert_eq!(byte_to_line_col(source, 7), (2, 1));
    assert_eq!(byte_to_line_col(source, 14), (3, 1));
}

#[test]
fn test_byte_to_line_col_clamps_past_end() {
    let source = "ab\ncd";
    assert_eq!(byte_to_line_col(source, 99), (2, 3));
}

#[test]
fn test_byte_to_line_col_counts_chars_not_bytes() {
    // Two-byte character before the offset: columns count characters.
    let source = "é x";
    assert_eq!(byte_to_line_col(source, 3), (1, 3));
}

#[test]
fn test_parse_empty_string() {
    let chunks = parse("");
    assert_eq!(chunks.len(), 0);
}

#[test]
fn test_parse_plain_text() {
    let chunks = parse("Hello world");

    assert_eq!(chunks.len(), 1);
    assert_eq!(chunks[0].text, "Hello world");
    assert_eq!(chunks[0].line_start, 1);
    assert_eq!(chunks[0].col_start, 1);
    assert!(!chunks[0].bold);
    assert!(!chunks[0].italic);
    assert!(!chunks[0].code);
}

#[test]
fn test_parse_heading() {
    let chunks = parse("# Heading 1");

    assert!(!chunks.is_empty());
    let heading_chunk = chunks.iter().find(|c| c.text == "Heading 1").unwrap();
    assert_eq!(heading_chunk.heading_level, Some(1));
    assert_eq!(heading_chunk.line_start, 1);
}

#[test]
fn test_parse_heading_title() {
    let chunks = parse("# Title");
    let heading_chunk = chunks.iter().find(|c| c.text == "Title").unwrap();
    assert_eq!(heading_chunk.heading_level, Some(1));
}

#[test]
fn test_parse_bold_text() {
    let chunks = parse("This is **bold** text");

    let bold_chunk = chunks.iter().find(|c| c.text == "bold").unwrap();
    assert!(bold_chunk.bold);
    assert!(!bold_chunk.italic);
    // Flags stay off for the unrelated chunks of the same document.
    let plain = chunks.iter().find(|c| c.text == "This is ").unwrap();
    assert!(!plain.bold);
    assert!(!plain.italic);
}

#[test]
fn test_parse_italic_text() {
    let chunks = parse("This is *italic* text");

    let italic_chunk = chunks.iter().find(|c| c.text == "italic").unwrap();
    assert!(italic_chunk.italic);
    assert!(!italic_chunk.bold);
}

#[test]
fn test_parse_inline_code() {
    let chunks = parse("Use `println!()` to print");

    let code_chunk = chunks.iter().find(|c| c.text == "println!()").unwrap();
    assert!(code_chunk.code);
    assert_eq!(code_chunk.code_block_lang, None);
}

#[test]
fn test_parse_code_block() {
    let markdown = "```rust\nfn main() {}\n```";
    let chunks = parse(markdown);

    let code_chunk = chunks.iter().find(|c| c.text.contains("fn main")).unwrap();
    assert!(code_chunk.code);
    assert_eq!(code_chunk.code_block_lang, Some("rust".to_string()));
}

#[test]
fn test_parse_code_block_no_language() {
    let markdown = "```\nplain code\n```";
    let chunks = parse(markdown);

    let code_chunk = chunks
        .iter()
        .find(|c| c.text.contains("plain code"))
        .unwrap();
    assert!(code_chunk.code);
    // A fenced block without a language carries an empty tag, not none.
    assert_eq!(code_chunk.code_block_lang, Some("".to_string()));
}

#[test]
fn test_parse_multiline_document() {
    let markdown = "# Heading 1\n\nSome **bold** and *italic* text with `inline code` here.\n\n```rust\nprintln!(\"hello\");\n```\n";
    let chunks = parse(markdown);

    assert!(chunks.len() > 5);

    let heading = chunks.iter().find(|c| c.text == "Heading 1").unwrap();
    assert_eq!(heading.heading_level, Some(1));
    assert_eq!(heading.line_start, 1);

    let bold = chunks.iter().find(|c| c.text == "bold").unwrap();
    assert!(bold.bold);

    let italic = chunks.iter().find(|c| c.text == "italic").unwrap();
    assert!(italic.italic);

    let inline_code = chunks.iter().find(|c| c.text == "inline code").unwrap();
    assert!(inline_code.code);

    let code_block = chunks
        .iter()
        .find(|c| c.code && c.text.contains("println"))
        .unwrap();
    assert_eq!(code_block.code_block_lang, Some("rust".to_string()));
}

#[test]
fn test_parse_table() {
    let markdown = "| A | B |\n|---|---|\n| 1 | 2 |\n| 3 | 4 |\n";
    let chunks = parse(markdown);

    let table_chunks: Vec<_> = chunks.iter().filter(|c| c.table.is_some()).collect();
    assert!(table_chunks.len() > 0, "Should parse at least one table");

    let first_table = table_chunks[0].table.as_ref().unwrap();
    assert!(
        first_table.alignments.len() > 0,
        "Table should have columns"
    );
}

#[test]
fn test_parse_table_header_and_rows() {
    // A header row and two body rows give one table-bearing chunk.
    let markdown = "| A | B |\n|:--|--:|\n| 1 | 2 |\n| 3 | 4 |\n";
    let chunks = parse(markdown);

    let table_chunks: Vec<_> = chunks.iter().filter(|c| c.table.is_some()).collect();
    assert_eq!(table_chunks.len(), 1);

    let table = table_chunks[0].table.as_ref().unwrap();
    assert_eq!(table.header, vec!["A".to_string(), "B".to_string()]);
    assert_eq!(table.rows.len(), 2);
    assert_eq!(table.rows[0], vec!["1".to_string(), "2".to_string()]);
    assert_eq!(table.rows[1], vec!["3".to_string(), "4".to_string()]);
    assert!(table.alignments.len() >= 1);
    assert_eq!(table.alignments[0], TableAlign::Left);
    assert_eq!(table.alignments[1], TableAlign::Right);
}

#[test]
fn test_parse_unicode() {
    let markdown = "Crab 🦀 emoji\n\n日本語のテキスト\n";
    let chunks = parse(markdown);

    assert!(chunks.len() > 0);

    let emoji_chunk = chunks.iter().find(|c| c.text.contains("🦀"));
    assert!(emoji_chunk.is_some(), "Should parse emoji");

    let japanese_chunk = chunks.iter().find(|c| c.text.contains("日本語"));
    assert!(japanese_chunk.is_some(), "Should parse Japanese characters");
}

#[test]
fn test_position_tracking_single_line() {
    let chunks = parse("Hello world");

    assert_eq!(chunks[0].line_start, 1);
    assert_eq!(chunks[0].line_end, 1);
    assert_eq!(chunks[0].col_start, 1);
}

#[test]
fn test_position_tracking_multiple_lines() {
    let chunks = parse("Line 1\nLine 2\nLine 3");

    let line1 = chunks.iter().find(|c| c.line_start == 1);
    let line2 = chunks.iter().find(|c| c.line_start == 2);
    let line3 = chunks.iter().find(|c| c.line_start == 3);

    assert!(line1.is_some(), "Should have chunk on line 1");
    assert!(line2.is_some(), "Should have chunk on line 2");
    assert!(line3.is_some(), "Should have chunk on line 3");
}

#[test]
fn test_newline_after_paragraph() {
    let chunks = parse("Paragraph 1\n\nParagraph 2");

    let para_chunks: Vec<_> = chunks.iter().filter(|c| !c.text.is_empty()).collect();
    assert!(para_chunks.len() >= 2);

    let first_para = &para_chunks[0];
    assert!(first_para.newline_after || para_chunks[1].newline_after);
}

#[test]
fn test_soft_break_vs_hard_break() {
    let chunks_soft = parse("Line 1\nLine 2");
    let chunks_hard = parse("Line 1  \nLine 2");

    assert!(chunks_soft.len() > 0);
    assert!(chunks_hard.len() > 0);

    // A soft break yields a space chunk without a forced block break; a
    // hard break yields a newline chunk with one.
    let soft = chunks_soft.iter().find(|c| c.text == " " && c.line_start == 0);
    assert!(soft.is_some());
    assert!(!soft.unwrap().newline_after);
    let hard = chunks_hard.iter().find(|c| c.text == "\n" && c.line_start == 0);
    assert!(hard.is_some());
    assert!(hard.unwrap().newline_after);
}

#[test]
fn test_image_path_resolution() {
    let chunks = parse("![Alt text](image.png)");

    let image_chunk = chunks.iter().find(|c| c.image_path.is_some());
    assert!(image_chunk.is_some(), "Should parse image");

    let img = image_chunk.unwrap();
    assert!(img.image_path.as_ref().unwrap().contains("image.png"));
    assert!(img.newline_after);
}

#[test]
fn test_image_height_from_metadata() {
    let mut images = ImageMeta::new();
    images.insert("photo.png".to_string(), 800, 600);
    let markdown = "<p align=\"center\">\n<img src=\"photo.png\" width=\"400\">\n</p>";
    let chunks = parse_markdown(markdown, &images);

    let img = chunks.iter().find(|c| c.image_path.is_some()).unwrap();
    assert_eq!(img.image_width, Some(400));
    // 400 * 600 / 800, keeping the aspect ratio.
    assert_eq!(img.image_height, Some(300));
}

#[test]
fn test_html_centered_image() {
    let markdown = "<p align=\"center\">\n<img src=\"test.png\" width=\"400\">\n</p>";
    let chunks = parse(markdown);

    let image_chunk = chunks.iter().find(|c| c.image_path.is_some());
    assert!(image_chunk.is_some(), "Should parse HTML image");

    let img = image_chunk.unwrap();
    assert!(img.alignment.is_some(), "Should detect center alignment");
    assert_eq!(img.image_width, Some(400), "Should parse width");
}

#[test]
fn test_html_block_without_image_is_dropped() {
    let markdown = "<p align=\"center\">no image here</p>\n\ntext after";
    let chunks = parse(markdown);

    assert!(chunks.iter().all(|c| c.image_path.is_none()));
    assert!(chunks.iter().any(|c| c.text == "text after"));
}

#[test]
fn test_mixed_formatting() {
    let chunks = parse("This has ***bold and italic*** text");

    let formatted = chunks.iter().find(|c| c.bold && c.italic);
    assert!(formatted.is_some(), "Should parse bold+italic text");
}

#[test]
fn test_chunks_in_nondecreasing_byte_order() {
    let markdown = "# T\n\nabc **b** `c`\n\n- item\n";
    let chunks = parse(markdown);
    for w in chunks.windows(2) {
        assert!(w[0].byte_start <= w[1].byte_start);
    }
}
