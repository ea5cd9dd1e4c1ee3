//! Building blocks of a Debian-style package repository: deciding when a
//! remote artifact has to be fetched again, reading the metadata and file list
//! out of package archives, and merging those lists into one sorted,
//! conflict-free contents index that can be streamed in chunks.

pub mod bytes;
pub mod archive;
pub mod config;
pub mod download;
pub mod index;
