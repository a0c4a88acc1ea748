[package]
name = "sentinel"
version = "0.1.0"
edition = "2021"
publish = false

[dependencies]
anyhow = "=1.0.104"
async-trait = "=0.1.92"
dotenv = "=0.15.0"
env_logger = "=0.11.11"
futures = "=0.3.34"
log = "=0.4.34"
reqwest = { version = "=0.13.5", default-features = false, features = ["json", "form"] }
serde = { version = "=1.0.229", features = ["derive"] }
serde_json = "=1.0.151"
sms-client = "=3.1.0"
tokio = { version = "=1.53.2", features = ["full"] }
warp = { version = "=0.4.3", features = ["server"] }
