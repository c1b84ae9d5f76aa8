[package]
name = "phonemic"
version = "0.1.0"
edition = "2021"
publish = false

[dependencies]
rand = "=0.8.8"
subtle = "=2.6.1"
sha2 = "=0.10.9"
hex = "=0.4.3"
base64 = "=0.22.1"
qrcode = "=0.14.1"
serde = { version = "=1.0.229", features = ["derive"] }
serde_json = "=1.0.154"
http = "=1.5.0"
tokio = { version = "=1.54.1", features = ["sync", "time", "rt", "rt-multi-thread", "macros", "net", "signal", "fs"] }
axum = { version = "=0.7.9", features = ["ws"] }
tracing = "=0.1.44"
tracing-subscriber = { version = "=0.3.23", features = ["env-filter"] }
async-trait = "=0.1.92"
futures-util = "=0.3.34"
thiserror = "=1.0.69"
sys-locale = "=0.3.2"
mdns-sd = "=0.11.5"
toml = "=0.8.23"
rcgen = "=0.13.2"
tower = { version = "=0.5.3", features = ["util"] }
tower-http = { version = "0.6", features = ["fs"] }
