//! The core of a virtual file system: one tree of entries with the rules
//! of FAT and of ext4, path resolution, open files, and the POSIX face of
//! it all.
//!
//! - [`model`] is the file system as a mathematical value, with the lemmas
//!   that say that a tree stays a tree; [`vfs`] is the arena that holds
//!   it, and [`laws`] is what holds of it whatever is done.
//! - [`path`] splits paths, [`context`] resolves them and offers what goes
//!   by paths, and [`file`] is the open file with its cursor.
//! - [`posix`] has the open flags, the `stat` record, the table of
//!   descriptors and the system calls.
//! - [`fat`] and [`ext4`] hold what the two adapters decide: names,
//!   timestamps, metadata, inode numbers and errors.
//! - [`error`] and [`types`] are the vocabulary; [`time`] and [`mm`] are
//!   the arithmetic of the timer and the steps of mapping shared pages.

pub mod context;
pub mod error;
pub mod ext4;
pub mod fat;
pub mod file;
pub mod laws;
pub mod mm;
pub mod model;
pub mod path;
pub mod posix;
pub mod strings;
pub mod time;
pub mod types;
pub mod vfs;
