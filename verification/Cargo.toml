[package]
name = "rinha"
version = "0.1.0"
edition = "2021"
publish = false

[dependencies]
actix-web = "=4.15.0"
chrono = "=0.4.45"
deadpool-postgres = "=0.14.2"
postgres = { version = "=0.19.14", features = ["with-serde_json-1"] }
serde = { version = "=1.0.229", features = ["derive"] }
serde_json = "=1.0.151"
