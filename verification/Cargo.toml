[package]
name = "kraken"
version = "0.1.0"
edition = "2021"
publish = false

[dependencies]
azalea-world = "0.15"
bevy_app = "=0.20.1"
bevy_ecs = "=0.20.1"
bytes = "=1.12.1"
chrono = "0.4"
ctrlc = "3"
flate2 = "=1.1.10"
flume = "0.11"
mimalloc = "0.1"
noise = "=0.9.0"
owo-colors = { version = "4", features = ["supports-colors"] }
postcard = { version = "=1.1.3", features = ["alloc"] }
rustc_version_runtime = "0.3"
serde = { version = "1", features = ["derive"] }
serde_json = "1"
sled = "=0.34.7"
sysinfo = "0.37"
tokio = { version = "=1.54.1", features = ["full"] }
uuid = { version = "=1.29.0", features = ["v4", "serde"] }
