[package]
name = "nerine"
version = "0.1.0"
edition = "2021"
publish = false

[dependencies]
sha2 = "=0.11.0"
fast32 = "=1.0.3"
nanoid = "=0.5.0"
validator = "=0.21.0"
serde = { version = "=1.0.229", features = ["derive"] }
serde_json = "=1.0.151"
toml = "=1.1.7"
chrono = "=0.4.45"
sqlx = { version = "=0.8.6", default-features = false, features = ["runtime-tokio-rustls", "postgres", "chrono", "json"] }
bollard = { version = "=0.21.1", features = ["ssl"] }
reqwest = { version = "=0.12.28", default-features = false, features = ["json", "rustls-tls"] }
axum = { version = "=0.8.9" }
tokio = { version = "=1.53.2", features = ["macros", "rt-multi-thread", "signal", "time", "net"] }
tokio-util = { version = "=0.7.19", features = ["rt"] }
futures-util = "=0.3.34"
