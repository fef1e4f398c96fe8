[package]
name = "dataframe_api"
version = "0.1.0"
edition = "2021"
publish = false

[dependencies]
polars = { version = "=0.55.2", default-features = false, features = ["lazy", "json", "fmt", "dtype-slim", "temporal"] }
serde = { version = "=1.0.229", features = ["derive"] }
serde_json = "=1.0.154"
actix-web = { version = "=4.18.1", default-features = false, features = ["macros"] }
oracle = "=0.6.3"
thiserror = "=2.0.21"
dotenv = "=0.15.0"
env_logger = { version = "=0.11.11", default-features = false }
log = "=0.4.35"
chrono = { version = "=0.4.45", default-features = false, features = ["clock"] }
reqwest = { version = "=0.12.28", default-features = false, features = ["http2"] }
tokio = { version = "=1.54.1", features = ["rt-multi-thread", "macros", "time"] }
futures = "=0.3.34"
rand = "=0.8.8"
anyhow = "=1.0.104"
