//! Verified core of a crawl-and-tokenize pipeline.
//!
//! The library reduces parsed HTML trees to their visible text, joins
//! segmented morpheme tokens into a space-separated stream, derives the
//! asset file name that marks a URL as processed, and drives the paginated
//! crawl cursor and the per-record processing steps. Network transport,
//! HTML parsing, morphological segmentation and the file system live
//! outside the library; they hand plain values in and take plain values
//! back.

pub mod asset;
pub mod dom;
pub mod driver;
pub mod extract;
pub mod segment;
pub mod strutil;
