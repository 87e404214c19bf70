[package]
name = "astro_plan"
version = "0.1.0"
edition = "2021"
publish = false

[dependencies]
uuid = { version = "1", features = ["v4"] }
time = { version = "0.3", features = ["formatting", "parsing", "macros", "serde"] }
sha2 = "0.10"
hex = "0.4"
camino = "1"
serde = { version = "1", features = ["derive"] }
serde_json = "1"
tokio = { version = "1", features = ["rt", "sync", "macros", "time"] }
tracing = "0.1"

[dev-dependencies]
