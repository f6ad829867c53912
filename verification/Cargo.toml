[package]
name = "rusty_cart"
version = "0.1.0"
edition = "2021"
publish = false

[dependencies]
axum = "*"
reqwest = { version = "*", default-features = false, features = ["json"] }
serde = { version = "*", features = ["derive"] }
serde_json = "*"
tokio = { version = "*", features = ["macros", "rt-multi-thread", "net", "signal"] }
tower-http = { version = "*", features = ["cors"] }
