[package]
name = "scatterbrain"
version = "0.1.0"
edition = "2021"
publish = false

[dependencies]
rand = "0.8"
chrono = { version = "0.4", features = ["serde"] }
serde = { version = "1", features = ["derive"] }
serde_json = "1"
thiserror = "1"
tokio = { version = "1", features = ["full"] }
axum = "0.7"
tower-http = { version = "0.5", features = ["cors"] }
futures = "0.3"
tracing = "0.1"
tracing-subscriber = "0.3"
clap = { version = "4", features = ["derive"] }
clap_complete = "4"
colored = "2"
reqwest = { version = "0.12", default-features = false, features = ["json"] }
rmcp = { version = "0.1", features = ["server", "transport-io", "macros"] }
async-trait = "0.1"
