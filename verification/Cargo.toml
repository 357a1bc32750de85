[package]
name = "link"
version = "0.1.0"
edition = "2021"
publish = false

[dependencies]
findshlibs = "=0.10.2"
libc = "=0.2.191"
libloading = "=0.7.4"
once_cell = "=1.21.4"
parking_lot = "=0.12.5"
