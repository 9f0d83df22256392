//! Capture of a loaded web page: which images it refers to, how each one is
//! fetched or decoded, what the finished bundle holds and how it is laid out
//! on disk.
//!
//! The library decides; it performs no input or output. A caller loads the
//! page, sends the requests and writes the files, and hands every outcome
//! back as a plain value.

pub mod bindings;
pub mod text;
pub mod images;
pub mod webpage;
pub mod disk;
pub mod browser;
pub mod markdown;
