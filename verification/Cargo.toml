[package]
name = "adapter_macos"
version = "0.1.0"
edition = "2021"
publish = false

[dependencies]
base64 = "*"
block2 = "*"
chrono = "*"
objc2 = "*"
objc2-event-kit = "*"
objc2-foundation = "*"
plist = "*"
rusqlite = { version = "*", features = ["bundled"] }
serde = { version = "*", features = ["derive"] }
serde_json = "*"
sha2 = "*"
tempfile = "*"
urlencoding = "*"
uuid = { version = "*", features = ["v4"] }
