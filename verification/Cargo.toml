[package]
name = "rainbow_ls"
version = "0.1.0"
edition = "2021"
publish = false

[dependencies]
chrono = { version = "0.4", default-features = false, features = ["std"] }
clap = { version = "4", features = ["derive"] }
libc = "0.2"
regex = "1"
term_size = "0.3"
unicode-segmentation = "1"
