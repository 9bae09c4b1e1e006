[package]
name = "robot_agent"
version = "0.1.0"
edition = "2021"
publish = false

[dependencies]
base64 = "*"
bollard = "*"
clap = { version = "*", features = ["derive"] }
futures-util = "*"
libp2p = { version = "*", default-features = false, features = ["ed25519"] }
rust_socketio = { version = "*", features = ["async"] }
serde = { version = "*", features = ["derive"] }
serde_json = "*"
tokio = { version = "*", features = ["sync", "rt-multi-thread", "macros", "io-util"] }
tracing = "*"
