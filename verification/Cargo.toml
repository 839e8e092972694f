[package]
name = "guild_onboarding"
version = "0.1.0"
edition = "2021"
publish = false

[dependencies]
serde = { version = "*", features = ["derive"] }
serde_json = "*"
serenity = { version = "*", default-features = false, features = ["client", "gateway", "model", "http", "builder", "rustls_backend"] }
tokio = { version = "*", features = ["macros", "rt-multi-thread"] }
turso = { version = "*", default-features = false }
