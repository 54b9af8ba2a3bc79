[package]
name = "personacle"
version = "0.2.0"
edition = "2021"
publish = false

[dependencies]
chrono = "0.4"
uuid = { version = "1", features = ["v4"] }
serde = { version = "1", features = ["derive"] }
serde_json = "1"
rusqlite = { version = "*", features = ["bundled"] }
reqwest = { version = "*", default-features = false, features = ["json", "stream"] }
tokio = { version = "1", features = ["rt", "sync", "macros", "time"] }
tokio-util = "0.7"
futures-util = "0.3"
async-trait = "0.1"
thiserror = "*"
tracing = "0.1"
tracing-appender = "0.2"
tracing-subscriber = { version = "0.3", features = ["env-filter", "fmt"] }

[dev-dependencies]
tempfile = "3"
