//! Tables and what an analysis counts in them.

pub mod cluster;
pub mod numeric;
pub mod table;
