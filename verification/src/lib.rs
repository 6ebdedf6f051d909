//! Finds the occurrences of a pattern in a binary buffer and reports each as
//! a half-open range of byte offsets.
//!
//! Matching is byte-oriented: a pattern is compiled so that each of its
//! single-character constructs stands for one byte, and `.` matches every
//! byte, the newline byte included. The buffer need not be text in any
//! encoding.
//!
//! - [`filter`] holds the entry point, `filter`, and the compilation of
//!   patterns.
//! - [`scan`] holds the left-to-right scan and what is proved of its spans.
//! - [`engine`] is the boundary to the `regex` crate, which does the matching.
//! - [`hex`] decodes hex listings into buffers.

pub mod engine;
pub mod filter;
pub mod hex;
pub mod scan;
