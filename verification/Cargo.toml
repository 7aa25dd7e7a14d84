[package]
name = "blockfish"
version = "0.1.0"
edition = "2021"
publish = false

[dependencies]
serde = { version = "*", features = ["derive"] }
serde_json = "*"
mlua = { version = "0.6", features = ["lua54", "vendored"] }
