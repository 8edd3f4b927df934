[package]
name = "nusamai"
version = "0.1.0"
edition = "2021"
publish = false

[dependencies]
geojson = "0.24"
log = "0.4"
rayon = "1"
serde_json = "1"
