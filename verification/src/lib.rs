//! Batch classification of file names into category directories.
//!
//! The library holds the rules of the protocol: how a free-text category
//! becomes a directory name, how a model's reply is cleaned and read as a
//! mapping from file name to category, how the prompt of a batch is put
//! together, when an attempt is retried, how a listing is cut into batches
//! and which files of a batch are moved where. Network and file system work
//! is left to the caller, who hands in plain values and acts on the plain
//! values that come back.

pub mod text;
pub mod sanitize;
pub mod mapping;
pub mod parser;
pub mod prompt;
pub mod batch;
pub mod placement;
pub mod client;
pub mod config;
