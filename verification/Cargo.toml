[package]
name = "photosort"
version = "0.1.0"
edition = "2021"
publish = false

[dependencies]
sha2 = "*"
base16ct = { version = "*", features = ["alloc"] }
deunicode = "*"
serde = { version = "*", features = ["derive"] }
toml = "*"
walkdir = "*"
log = "*"
colog = "*"
human-errors = "*"
