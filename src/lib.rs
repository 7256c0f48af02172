//! Resumable extraction of a messaging account's chats into a directory tree.
//!
//! The library decides; the embedding program performs the file and network
//! work that each decision names.

pub mod text;
pub mod dates;
pub mod names;
pub mod types;
pub mod attachment;
pub mod batch;
pub mod checkpoint;
pub mod controller;
pub mod run;
pub mod opts;
pub mod companion;
pub mod source;
