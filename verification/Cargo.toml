[package]
name = "llauncher"
version = "0.1.0"
edition = "2021"
publish = false

[dependencies]
base64 = "=0.22.1"
crc32fast = "=1.5.4"
dirs = "=7.0.0"
md-5 = "=0.10.6"
serde = { version = "=1.0.229", features = ["derive"] }
serde_json = "=1.0.154"
zip = { version = "=2.6.1", default-features = false, features = ["deflate"] }
libc = "=0.2.191"
zbus = "=5.19.0"
reqwest = { version = "=0.12.28", default-features = false, features = ["json", "stream", "rustls-tls"] }
tokio = { version = "=1.54.1", features = ["rt-multi-thread", "fs", "io-util", "sync", "time"] }
futures-util = "=0.3.34"
sevenz-rust2 = "=0.24.2"
windows-sys = { version = "0.59", features = ["Win32_Foundation", "Win32_Storage_FileSystem", "Win32_System_Registry"] }
