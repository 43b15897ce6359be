//! Clean Up: the rules of a macOS cleanup tool, verified with Verus.
//!
//! The scanners decide what to flag from plain values (directory entries, sizes,
//! ages, the output of system tools); the trash module decides which paths may be
//! moved to the Trash and drives the fallbacks; the commands module holds the
//! decisions behind the frontend's commands. Reading the disk and running
//! processes is left to the caller.

pub mod text;
pub mod lexical;
pub mod keyed;
pub mod types;
pub mod findings;
pub mod pattern;
pub mod commands;
pub mod scanners;
pub mod utils;
