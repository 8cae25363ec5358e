[package]
name = "pure"
version = "0.1.0"
edition = "2021"
publish = false

[dependencies]
byte-unit = "*"
clap = { version = "*", features = ["derive"] }
dirs-next = "*"
globset = "*"
rayon = "*"
serde_json = "*"
walkdir = "*"

[dev-dependencies]
assert_fs = "*"
