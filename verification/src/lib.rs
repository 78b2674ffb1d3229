//! Interactive batch renaming: a directory listing, a match pattern and a
//! replacement template, a live preview of the names that would change, and
//! the stepwise execution of the confirmed renames.
//!
//! The library reads no directory and renames no file. Its host hands it
//! what reading the directory gave and the events of the terminal, performs
//! each rename it asks for, and reports how that went.
//!
//! - [`listing`]: the entries of the directory in display order
//! - [`pattern`]: the match pattern, tested against names and used to rewrite them
//! - [`preview`]: one row for each entry, with the name it would get
//! - [`executor`]: the confirmed renames, one at a time, up to the first failure
//! - [`session`]: focus, scrolling, the two texts, and what the host is to do next

pub mod entry;
pub mod executor;
pub mod listing;
pub mod ordering;
pub mod pattern;
pub mod preview;
pub mod session;
pub mod text;
