[package]
name = "wt_event_handler"
version = "0.1.0"
edition = "2021"
publish = false

[dependencies]
scraper = { version = "=0.13.0", features = ["deterministic"] }
chrono = { version = "=0.4.45", default-features = false, features = ["clock", "std"] }
serde = { version = "=1.0.229", features = ["derive"] }
serde_json = "=1.0.154"
tokio = { version = "=1.54.1", features = ["macros", "rt-multi-thread", "time", "sync"] }
reqwest = { version = "=0.11.27", default-features = false, features = ["rustls-tls"] }
serenity = { version = "=0.11.7", default-features = false, features = ["builder", "model", "http", "utils", "rustls_backend"] }
log = "=0.4.35"
log4rs = { version = "=1.4.0", default-features = false, features = ["file_appender", "pattern_encoder"] }
tracing = "=0.1.44"
thiserror = "=1.0.69"
lazy_static = "=1.5.1"
