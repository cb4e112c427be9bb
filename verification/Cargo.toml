[package]
name = "mass_disk_archiver"
version = "0.1.0"
edition = "2021"
publish = false

[dependencies]
cursive = { version = "=0.15.2", default-features = false, features = ["crossterm-backend"] }
tempfile-fast = "=0.3.6"

[dev-dependencies]
nom = { version = "=5.1.3", default-features = false, features = ["std"] }
