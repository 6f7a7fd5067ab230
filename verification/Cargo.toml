[package]
name = "m163_core"
version = "0.1.0"
edition = "2021"
publish = false

[dependencies]
aes = "=0.9.3"
cbc = { version = "=0.2.1", features = ["alloc"] }
base64 = "=0.23.1"
num-bigint = "=0.5.1"
num-traits = "=0.2.19"
rand = "*"
fastrand = "=2.5.0"
chrono = "=0.4.45"
serde = { version = "*", features = ["derive"] }
serde_json = "=1.0.151"
serde_yaml = "*"
reqwest = { version = "=0.13.5", default-features = false, features = ["cookies", "form"] }
tokio = { version = "*", features = ["rt-multi-thread", "macros", "sync", "time"] }
tokio-util = "*"
directories = "*"
rodio = "*"
