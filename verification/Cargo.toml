[package]
name = "clomonitor_router"
version = "0.1.0"
edition = "2021"
publish = false

[dependencies]
anyhow = "=1.0.104"
axum = "=0.5.17"
config = { version = "=0.13.4", default-features = false }
http-body = "=0.4.6"
tera = { version = "=1.20.1", default-features = false }
tower-http = { version = "=0.3.5", features = ["auth", "fs", "set-header", "trace"] }

[dev-dependencies]
hyper = "=0.14.32"
tokio = { version = "=1.54.1", features = ["rt", "fs"] }
tower = { version = "=0.4.13", features = ["util"] }
