//! The contents index: which package owns which file, sorted by path, free of
//! ownership conflicts, and serialised line by line.

pub mod record;
pub mod builder;
pub mod line;
pub mod merge;
pub mod reader;
pub mod sort;
