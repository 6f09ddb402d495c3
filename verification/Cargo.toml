[package]
name = "btrfs-awacs"
version = "0.1.0"
edition = "2021"
publish = false

[dependencies]
libc = "0.2"
rusqlite = { version = "0.32", features = ["bundled"] }
sha2 = "0.10"
uuid = { version = "1", features = ["v4"] }
