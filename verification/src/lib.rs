//! Interactive project-scratchpad launcher core.
//!
//! Given a base directory of "try" folders, this library models the
//! interactive selection session: the entry list, the incremental
//! fuzzy-filter/sort pass, the keyboard-driven selection state machine,
//! and the name-resolution step that decides whether a chosen name maps
//! to an existing folder (exactly or through a date prefix) or must
//! become a new folder.

pub mod config;
pub mod dates;
pub mod entries;
pub mod filter;
pub mod git;
pub mod paths;
pub mod resolve;
pub mod selection;
pub mod shell;
pub mod text;
pub mod urls;

