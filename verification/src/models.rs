//! Value types of the document model: selection state, chunks, tables,
//! review comments, and the per-frame layout index.

pub mod chunk;
pub mod comment;
pub mod layout;
pub mod review_mode;
pub mod selection;
pub mod table;

pub use chunk::Alignment;
pub use chunk::TextChunk;
pub use comment::Comment;
pub use layout::LayoutMap;
pub use review_mode::ReviewMode;
pub use selection::Selection;
pub use table::Table;
pub use table::TableAlign;
