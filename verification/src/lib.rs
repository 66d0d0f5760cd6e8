//! A lazy-loading, arena-backed file tree for a terminal editor.
//!
//! The tree of directories and files is owned by a single arena
//! ([`filesystem::FileSystem`]) and populated incrementally: opening a folder
//! schedules a background directory scan, and the scan's result is later
//! integrated into the arena on the owning thread. Integration is idempotent,
//! so concurrently running scans for the same folder cannot corrupt the tree.

pub mod cursor;
pub mod events;
pub mod file;
pub mod filesystem;
pub mod folder;
pub mod names;
pub mod scan;
pub mod sort;
pub mod state;
pub mod traverse;
pub mod utils;
