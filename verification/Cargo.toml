[package]
name = "coincheck"
version = "0.1.0"
edition = "2021"
publish = false

[dependencies]
serde = { version = "*", features = ["derive"] }
serde_json = "*"
reqwest = { version = "*", default-features = false, features = ["json"] }
tokio = { version = "*", features = ["macros", "rt-multi-thread"] }
chrono = { version = "*", features = ["serde"] }
diesel = { version = "*", features = ["postgres", "r2d2", "chrono"] }
dotenvy = "*"
hex = "*"
hmac = "*"
sha2 = "*"
log = "*"
simplelog = "*"
thiserror = "*"
async-trait = "*"
