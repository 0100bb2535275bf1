[package]
name = "see_augmented"
version = "0.1.0"
edition = "2021"
publish = false

[dependencies]
arc-swap = "1"
async_zip = { version = "*", features = ["tokio", "tokio-fs", "deflate"] }
boxcar = "*"
dioxus = "0.4"
image = { version = "0.24", default-features = false, features = ["png"] }
log = "0.4"
quick-xml = { version = "0.31", features = ["serialize"] }
serde = { version = "1", features = ["derive"] }
skia-safe = "0.67"
tokio = { version = "1", features = ["rt-multi-thread", "macros", "sync", "fs"] }
tracing-subscriber = "0.3"
winit = "0.28"
