[package]
name = "retail_smartops"
version = "0.1.0"
edition = "2021"
publish = false

[dependencies]
chrono = "*"
axum = "*"
tokio = { version = "*", features = ["macros", "rt-multi-thread", "net", "sync"] }
serde = { version = "*", features = ["derive"] }
serde_json = "*"
dotenvy = "*"
tracing = "*"
tracing-subscriber = { version = "*", features = ["env-filter", "fmt"] }
tower = "*"
tower-http = { version = "*", features = ["trace"] }
uuid = { version = "*", features = ["v4", "serde"] }
thiserror = "*"
