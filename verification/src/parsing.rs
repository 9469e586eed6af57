//! Parsing of markdown source into positioned chunks: the byte-offset
//! line/column index, the event-stream reduction that builds chunks, and
//! the small HTML fragment reader for aligned images.

pub mod chunks;
pub mod parser;
pub mod events;
pub mod html;
pub mod images;
pub mod position;

pub use html::parse_html_image;
pub use parser::parse_markdown;
pub use position::LineOffsets;
pub use position::byte_to_line_col;
