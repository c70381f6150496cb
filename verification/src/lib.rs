//! A word-count library: for each input source it computes how many bytes,
//! characters, words and lines the source's text holds, resolves command-line
//! tokens into a configuration and an ordered list of sources, renders one
//! fixed-width report line per source, and accumulates a running total.

pub mod count;
pub mod options;
pub mod render;
pub mod resolve;
