//! Batch operations over columns of H3 cell indexes.
//!
//! Every operation takes columns of optional values and answers with a column
//! of the same length, one independent row at a time. A row whose input is
//! absent, or is no cell index, has an absent result.

pub mod cell;
pub mod grid;
pub mod hex;
pub mod hierarchy;
pub mod indexing;
pub mod inspection;
pub mod laws;
pub mod metrics;
pub mod traversal;
pub mod types;
pub mod utils;
