//! The configuration store of a Rime input method, as a verified library.
//!
//! The library finds the files of a configuration, reads YAML documents
//! into a generic tree, tells base documents from custom patches, keeps the
//! colours of the appearance file readable, writes patches back as YAML with
//! a plan that never leaves a file half written, and takes the metadata out
//! of every schema file. It touches no file itself: callers hand it the text
//! of files and carry out the plans it returns.

pub mod colors;
pub mod commands;
pub mod deploy;
pub mod invariants;
pub mod json;
pub mod lines;
pub mod paths;
pub mod phrases;
pub mod reader;
pub mod round_trip;
pub mod schemas;
pub mod text;
pub mod tree;
pub mod writer;
pub mod yaml_utils;
