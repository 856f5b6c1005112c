//! An editing session: its files, its conversation and its tool calls.

pub mod args;
pub mod chat;
pub mod context;
pub mod files;
pub mod tools;
