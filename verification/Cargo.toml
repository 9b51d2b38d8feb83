[package]
name = "batchmv"
version = "0.1.0"
edition = "2021"
publish = false

[dependencies]
atty = "0.2"
bstr = { version = "1", default-features = false, features = ["std"] }
clap = { version = "3", features = ["derive"] }
fs_extra = "1"
once_cell = "1"
same-file = "1"
termcolor = "1"
thiserror = "1"
