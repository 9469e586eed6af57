//! Frame-time logic around the chunk sequence: inline batching, viewport
//! culling with cached heights, line/position interpolation helpers, and
//! the pointer-driven selection state machine.

pub mod comments;
pub mod helpers;
pub mod inline_batcher;
pub mod selection_manager;
pub mod text_builder;
pub mod viewport;

pub use inline_batcher::InlineTextBatcher;
pub use text_builder::TextContext;
pub use selection_manager::SelectionManager;
pub use viewport::ViewportCuller;
