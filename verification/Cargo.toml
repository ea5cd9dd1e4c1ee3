[package]
name = "debrep"
version = "0.1.0"
edition = "2021"
publish = false

[dependencies]
ar = "*"
checksum = "*"
libflate = "*"
log = "*"
rayon = "*"
reqwest = { version = "*", default-features = false, features = ["blocking"] }
serde = { version = "*", features = ["derive"] }
sha2 = "*"
tar = "*"
toml = "*"
utime = "*"
walkdir = "*"
xz2 = "*"
