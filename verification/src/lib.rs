//! Archiving and compression driven by file extensions.
//!
//! The extensions at the end of a file name say which formats make up an
//! archive and in which order they were applied. This crate resolves such a
//! chain of extensions, checks that it makes sense, and runs the matching
//! sequence of bundling and compression steps in either direction.
//!
//! - `format` is the registry of formats, `extension` reads chains off
//!   names, `chain` holds the rules that a chain has to meet.
//! - `codec` and `archive` call the crates that know the formats
//!   themselves. They work on bytes in memory.
//! - `pipeline` puts the steps of a chain in their order and runs them.
//! - `commands` carries out a whole command, step by step, and leaves to
//!   its caller all dealings with the file system and the user.
//! - `cli` and `oof` read a command and its flags off a command line.

pub mod text;
pub mod format;
pub mod extension;
pub mod error;
pub mod codec;
pub mod archive;
pub mod chain;
pub mod pipeline;
pub mod oof;
pub mod cli;
pub mod commands;
