//! A library for keeping a most-recently-used list of repository paths.
//!
//! The heart of the crate is a reversible codec (`path_string`) that turns an
//! arbitrary platform path — a sequence of bytes on the Unix family, a
//! sequence of 16-bit units on the Windows family — into a printable,
//! line-safe token and back, bit for bit.  Around it sit the MRU list that
//! stores such tokens one per line (`mru_list`), helpers for the well-known
//! directories and for `~` compression (`paths`, `utils`), a repository
//! registry (`repositories`), and a timing helper (`timer`).

pub mod mru_list;
pub mod path_string;
pub mod paths;
pub mod repositories;
pub mod timer;
pub mod utils;
