//! The rules of the FAT adapter.

pub mod dir;
pub mod fs;
pub mod util;
