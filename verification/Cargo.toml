[package]
name = "reviewgraphen_store"
version = "0.1.0"
edition = "2021"
publish = false

[dependencies]
serde = "*"
serde_json = "*"
rusqlite = { version = "*", default-features = false, features = ["bundled", "serialize", "limits"] }
rustix = { version = "*", features = ["fs", "process", "rand"] }
thiserror = "*"
