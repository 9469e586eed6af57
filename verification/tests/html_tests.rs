//! Unit tests for the HTML fragment reader.

use mirror::models::Alignment;
use mirror::parsing::html::extract_attribute;
use mirror::parsing::html::parse_alignment;
use mirror::parsing::parse_html_image;

#[test]
fn test_parse_centered_image_with_width() {
    let html = "<p align=\"center\">\n<img src=\"test.png\" width=\"400\">\n</p>";

    let result = parse_html_image(html);
    assert!(result.is_some());

    let (src, alignment, width) = result.unwrap();
    assert_eq!(src, "test.png");
    assert!(matches!(alignment, Some(Alignment::Center)));
    assert_eq!(width, Some(400));
}

#[test]
fn test_parse_image_without_alignment() {
    let html = "<p>\n<img src=\"image.jpg\">\n</p>";

    let result = parse_html_image(html);
    assert!(result.is_some());

    let (src, alignment, width) = result.unwrap();
    assert_eq!(src, "image.jpg");
    assert!(alignment.is_none());
    assert!(width.is_none());
}

#[test]
fn test_parse_right_aligned_image() {
    let html = "<p align=\"right\"><img src=\"pic.png\"></p>";

    let result = parse_html_image(html);
    assert!(result.is_some());

    let (src, alignment, _) = result.unwrap();
    assert_eq!(src, "pic.png");
    assert!(matches!(alignment, Some(Alignment::Right)));
}

#[test]
fn test_parse_with_single_quotes() {
    let html = "<p align='center'><img src='test.png' width='200'></p>";

    let result = parse_html_image(html);
    assert!(result.is_some());

    let (src, _, width) = result.unwrap();
    assert_eq!(src, "test.png");
    assert_eq!(width, Some(200));
}

#[test]
fn test_non_paragraph_html() {
    let html = "<div><img src='test.png'></div>";

    let result = parse_html_image(html);
    assert!(result.is_none());
}

#[test]
fn test_missing_img_tag() {
    let html = "<p align='center'>No image here</p>";

    let result = parse_html_image(html);
    assert!(result.is_none());
}

#[test]
fn test_extract_attribute() {
    let html = "<img src=\"test.png\" alt=\"Test\">";

    assert_eq!(extract_attribute(html, "src"), Some("test.png".to_string()));
    assert_eq!(extract_attribute(html, "alt"), Some("Test".to_string()));
    assert_eq!(extract_attribute(html, "missing"), None);
}

#[test]
fn test_parse_alignment_left() {
    assert!(matches!(
        parse_alignment("<p align=\"left\">"),
        Some(Alignment::Left)
    ));
    assert!(parse_alignment("<p>").is_none());
}

#[test]
fn test_non_numeric_width_is_dropped() {
    let html = "<p align=\"center\"><img src=\"a.png\" width=\"wide\"></p>";

    let result = parse_html_image(html);
    assert!(result.is_some());
    let (src, _, width) = result.unwrap();
    assert_eq!(src, "a.png");
    assert_eq!(width, None);
}
