[package]
name = "firetail"
version = "0.1.0"
edition = "2021"
publish = false

[dependencies]
pluralizer = "*"
actix-web = "*"
actix-http = "*"
futures-util = "*"
reqwest = { version = "*", default-features = false }
reqwest-middleware = "*"
reqwest-retry = "*"
tokio = { version = "*", features = ["macros", "rt-multi-thread"] }

[dev-dependencies]
serde_json = "*"
