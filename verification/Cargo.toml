[package]
name = "rbac_gate"
version = "0.1.0"
edition = "2021"
publish = false

[dependencies]
jsonwebtoken = { version = "=11.1.0", features = ["rust_crypto"] }
bcrypt = "=0.19.3"
serde_json = "=1.0.151"
chrono = { version = "=0.4.45", features = ["serde"] }
serde = { version = "=1.0.229", features = ["derive"] }
actix-web = "=4.15.0"
actix-service = "=2.0.3"
futures-util = "=0.3.34"
dotenv = "=0.15.0"
reqwest = { version = "=0.13.5", default-features = false, features = ["json"] }
anyhow = "=1.0.104"
