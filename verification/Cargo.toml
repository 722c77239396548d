[package]
name = "moji"
version = "0.2.0"
edition = "2021"
publish = false

[dependencies]
argh = "0.1"
block2 = "0.6"
libc = "0.2"
objc2 = "0.6"
objc2-app-kit = "0.3"
objc2-application-services = "0.3"
objc2-core-foundation = "0.3"
objc2-core-graphics = "0.3"
objc2-foundation = "0.3"
serde = { version = "1", features = ["derive"] }
toml = "0.9"
tracing = "0.1"
tracing-subscriber = { version = "0.3", features = ["env-filter"] }
