[package]
name = "website"
version = "0.1.0"
edition = "2021"
publish = false

[dependencies]
gray_matter = "*"
chrono = { version = "0.4", features = ["serde"] }
markdown = "*"
leptos = { version = "*", features = ["ssr"] }
leptos_meta = { version = "*", features = ["ssr"] }
leptos_router = { version = "*", features = ["ssr"] }
leptos_axum = "*"
axum = "*"
tokio = { version = "1", features = ["rt-multi-thread", "macros", "fs", "net"] }
tower-http = { version = "*", features = ["fs", "trace"] }
tracing-subscriber = { version = "0.3", features = ["env-filter"] }
http = "1"
mime = "0.3"
futures = "0.3"
serde = { version = "1", features = ["derive"] }
thiserror = "*"
cfg-if = "1"
