//! Core document model of a markdown review viewer: a position-tagged chunk
//! sequence parsed from markdown source, a byte-offset line/column index,
//! a per-frame line-range-to-screen-coordinate layout index, drag-based line
//! selection, inline chunk batching, and viewport culling with cached heights.

pub mod models;
pub mod parsing;
pub mod rendering;
pub mod storage;
pub mod text;
