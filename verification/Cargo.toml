[package]
name = "geolibre_desktop"
version = "0.1.0"
edition = "2021"
publish = false

[dependencies]
duckdb = { version = "1", default-features = false }
flate2 = "1"
getrandom = "0.2"
reqwest = { version = "0.12", default-features = false, features = ["blocking"] }
rusqlite = { version = "0.32", default-features = false }
serde = { version = "1", features = ["derive"] }
serde_json = "1"
tar = { version = "0.4", default-features = false }
zip = { version = "2", default-features = false, features = ["deflate"] }
