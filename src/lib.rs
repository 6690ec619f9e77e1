//! Similarity graphs over job categories and the statistics derived from them.
//!
//! Percentages are held as integers in thousandths of a percentage point, so
//! that the threshold rule of the graph is exact.
pub mod graph;
pub mod distribution;
pub mod summary;
pub mod lemmas;
pub mod record;
