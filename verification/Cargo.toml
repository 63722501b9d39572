[package]
name = "vertigo_patterns"
version = "0.1.0"
edition = "2021"
publish = false

[dependencies]
chrono = { version = "=0.4.45", features = ["serde"] }
axum = "=0.8.9"
tokio = { version = "=1.53.2", features = ["rt-multi-thread", "macros", "net"] }
tower = "=0.5.3"
tower-http = { version = "=0.7.1", features = ["cors", "fs"] }
serde = { version = "=1.0.229", features = ["derive"] }
serde_json = "=1.0.151"
diesel = { version = "=2.3.14", features = ["sqlite", "chrono"] }
libsqlite3-sys = { version = "=0.38.2", features = ["bundled"] }
reqwest = { version = "=0.13.5", default-features = false, features = ["json"] }
printpdf = "=0.7.0"
