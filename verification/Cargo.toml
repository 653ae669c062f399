[package]
name = "point_ledger"
version = "0.1.0"
edition = "2021"
publish = false

[dependencies]
chrono = "0.4"
regex = "1"
poise = "0.6"
serenity = { version = "0.12", default-features = false, features = ["standard_framework", "rustls_backend"] }
tokio = { version = "1", features = ["macros", "rt-multi-thread", "sync"] }
tokio-postgres = { version = "0.7", features = ["with-chrono-0_4"] }
bb8-postgres = "0.8"
postgres-openssl = "0.5"
openssl = "0.10"
dotenv = "0.15"
env_logger = "0.11"
log = "0.4"
