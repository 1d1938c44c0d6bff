//! Sorting the files of a folder into subfolders named after the day each
//! file was created.
//!
//! The library holds the decisions only: which files of a listing count,
//! which folder a file belongs to, and what to do next after each step on the
//! file system. Reading directories, creating them and moving files is left to
//! the caller, who hands in plain values and carries out the actions it gets
//! back.

pub mod date;
pub mod entry;
pub mod extension;
pub mod organizer;
pub mod path;
pub mod scanner;
pub mod text;
