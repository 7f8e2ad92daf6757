//! Merges the source files of a package into one self-contained file.

pub mod bundle;
pub mod engine;
pub mod error;
pub mod line;
pub mod manifest;
pub mod merge;
pub mod merge_laws;
pub mod opts;
pub mod rewrite;
pub mod rewrite_laws;
pub mod source;
pub mod text;
pub mod text_laws;
pub mod unit;
