[package]
name = "avro_idl"
version = "0.1.0"
edition = "2021"
publish = false

[dependencies]
clap = { version = "4", features = ["derive"] }
serde_json = "1"

[dev-dependencies]
chumsky = { version = "0.9", default-features = false, features = ["std"] }
