[package]
name = "ferrumnote"
version = "0.1.0"
edition = "2021"
publish = false

[dependencies]
comrak = { version = "*", default-features = false }
notify = "*"
once_cell = "1"
serde = { version = "1", features = ["derive"] }
tauri = { version = "2", default-features = false }
thiserror = "*"
toml = "*"
