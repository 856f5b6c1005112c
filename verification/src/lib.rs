//! Queries and edits of a markup document, one edit at a time: list the
//! elements, find them by a path pattern, and set a text, set an
//! attribute, remove an element or add a child, leaving every other event
//! of the document as it was read. Around it: the tables, file listings
//! and tool calls of an editing session.

pub mod data;
pub mod error;
pub mod session;
pub mod text;
pub mod xml;
