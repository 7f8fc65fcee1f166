[package]
name = "cimengine"
version = "0.1.0"
edition = "2021"
publish = false

[dependencies]
clap = { version = "=4.6.7", features = ["derive"] }
geo = { version = "=0.33.1", default-features = false }
geojson = "=1.0.0"
serde = { version = "=1.0.229", features = ["derive"] }
serde_json = { version = "=1.0.154", features = ["preserve_order"] }
toml = "=1.1.8"
toml_edit = "=0.25.17"
wax = "=0.7.0"
xxhash-rust = { version = "=0.8.19", features = ["xxh3"] }
