[package]
name = "geojson_geometry"
version = "0.1.0"
edition = "2021"
publish = false

[dependencies]
rustc-serialize = "0.3"
serde = "1"
serde_json = "1"
