[package]
name = "timeseries_kernel"
version = "0.1.0"
edition = "2021"

[dependencies]
zstd = "*"
libc = "*"
