[package]
name = "tango_bench"
version = "0.1.0"
edition = "2021"
publish = false

[dependencies]
libloading = "0.8"
num-traits = "0.2"
thiserror = "1"
