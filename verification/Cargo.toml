[package]
name = "local_agent"
version = "0.1.0"
edition = "2021"
publish = false

[dependencies]
serde = { version = "=1.0.229", features = ["derive"] }
serde_json = "=1.0.154"
globset = "=0.4.21"
encoding_rs = "=0.8.44"
base64 = "=0.22.1"
chrono = "=0.4.45"
dirs = "=5.0.1"
uuid = { version = "=1.29.0", features = ["v4"] }
walkdir = "=2.5.0"
zip = { version = "=2.6.1", default-features = false, features = ["deflate"] }
anyhow = "=1.0.104"
async-trait = "=0.1.92"
futures-util = "=0.3.34"
tokio = { version = "=1.54.1", features = ["rt-multi-thread", "macros", "process", "time", "sync", "net", "io-util", "signal"] }
reqwest = { version = "=0.12.28", default-features = false, features = ["json", "stream"] }
image = { version = "=0.25.10", default-features = false, features = ["png", "jpeg", "webp", "bmp", "tiff"] }
lopdf = "=0.42.0"
pdf-extract = "=0.12.1"
trash = "=5.2.9"
xcap = "=0.9.8"
ort = { version = "=2.0.0-rc.15", default-features = false, features = ["std", "ndarray", "load-dynamic"] }
ndarray = "=0.17.2"
