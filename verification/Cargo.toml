[package]
name = "lifelog"
version = "0.1.0"
edition = "2021"
publish = false

[dependencies]
anyhow = "1"
clap = { version = "4", features = ["derive"] }
core-foundation = "0.10"
dirs = "6"
libc = "0.2"
objc2-app-kit = { version = "0.3", default-features = false, features = ["std", "libc", "NSWorkspace", "NSRunningApplication"] }
objc2-foundation = { version = "0.3", default-features = false, features = ["std", "NSString"] }
rusqlite = { version = "0.32", features = ["bundled"] }
serde_json = "1"
tiny_http = "0.12"
