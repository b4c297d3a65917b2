//! Batch image tagging: the job engine that classifies the images of a folder,
//! keeps their tags in an index and in each file's metadata, and renames tags
//! across the whole index.

pub mod tagset;
pub mod text;
pub mod words;
pub mod control;
pub mod engine;
pub mod index;
pub mod labels;
pub mod scanner;
