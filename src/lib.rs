//! A singly-linked FIFO list whose nodes live in an index-based arena.
pub mod laws;
pub mod list;

pub use list::List;
