//! The document: its events, its elements, the patterns that find them and
//! the edits.

pub mod element;
pub mod event;
pub mod index;
pub mod laws;
pub mod markup;
pub mod modifier;
pub mod pattern;
pub mod reader;
pub mod render;
pub mod rewrite;
pub mod target;
