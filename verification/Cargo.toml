[package]
name = "commlib"
version = "0.1.0"
edition = "2021"
publish = false

[dependencies]
base64 = "0.22"
ring = "0.17"
md5 = "0.7"
blowfish = "0.9"
cfb-mode = "0.8"
chrono = { version = "0.4", default-features = false, features = ["std", "clock"] }
hashbrown = "0.14"
parking_lot = "0.12"
crossbeam = "0.8"
num_cpus = "1"
serde_json = "1"
clap = { version = "4", features = ["derive"] }
http = "1"
uuid = { version = "1", features = ["v4"] }
prost = "0.12"

[dev-dependencies]
hex = "0.4"
