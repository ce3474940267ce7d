[package]
name = "axvfs"
version = "0.1.0"
edition = "2021"
publish = false

[dependencies]
axerrno = "=0.1.2"
axfs-ng-vfs = "=0.1.1"
axio = "0.2"
chrono = { version = "=0.4.45", default-features = false }
fatfs = "=0.3.6"
lazyinit = "=0.2.2"
lock_api = "=0.4.14"
loongArch64 = "=0.2.6"
lwext4_rust = "=0.2.0"
memory_addr = "=0.4.1"
slab = "=0.4.12"
