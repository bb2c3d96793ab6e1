[package]
name = "service_registry"
version = "0.1.0"
edition = "2021"
publish = false

[dependencies]
uuid = { version = "=1.27.0", features = ["v4"] }
url = "=2.5.8"
serde = { version = "=1.0.229", features = ["derive"] }
actix-web = { version = "=4.15.0", default-features = false, features = ["macros"] }
reqwest = { version = "=0.13.5", default-features = false, features = ["form"] }
dotenv = "=0.15.0"
env_logger = "=0.11.11"
