[package]
name = "ponyboy"
version = "0.1.0"
edition = "2021"
publish = false

[dependencies]
rand = "0.8"
serde = { version = "1", features = ["derive"] }
toml = "0.8"
serenity = { version = "0.12", features = ["cache"] }
tokio = { version = "1", features = ["macros", "rt-multi-thread"] }
futures = "0.3"
reqwest = { version = "0.11", features = ["json"] }
warp = "0.3"
