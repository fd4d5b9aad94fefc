//! A content-filtering transform for a book: a tree of chapters whose text may
//! hold delimited private blocks. One run either marks that content visually
//! or removes it, dropping whole private chapters and repairing the section
//! numbers of the survivors.

pub mod config;
pub mod extract;
pub mod filter;
pub mod number;
pub mod transform;
pub mod text;
pub mod tree;

pub use transform::Private;
