//! Core of an application launcher: resolves the directories to scan for
//! desktop descriptor files, parses descriptors into application records,
//! deduplicates and sorts them, and handles both sides of the
//! null-delimited wire protocol spoken with an external fuzzy-selector
//! process, including the post-processing of the chosen launch command.
//! All text is handled as bytes; the surrounding program does the reading
//! of environments, files and pipes and hands plain values in.

pub mod bytes;
pub mod collect;
pub mod config;
pub mod parse;
pub mod record;
pub mod search;
pub mod wire;
