[package]
name = "cua_core"
version = "0.1.0"
edition = "2021"
publish = false

[dependencies]
libc = "0.2"
objc2-app-kit = "0.3"
objc2-core-foundation = "0.3"
objc2-core-graphics = "0.3"
serde = { version = "1", features = ["derive"] }
thiserror = "2"
tracing = "0.1"
