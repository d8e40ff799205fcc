[package]
name = "options"
version = "0.1.0"
edition = "2021"
publish = false

[dependencies]
more-changetoken = "=2.1.0"
more-di = { version = "=3.2.1", default-features = false, features = ["builder", "async"] }
more-config = { version = "=2.2.0", features = ["binder", "async"] }
serde = { version = "=1.0.229", features = ["derive"] }
