//! The rules of the ext4 adapter.

pub mod util;
