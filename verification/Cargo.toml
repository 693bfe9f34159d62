[package]
name = "wsrelay"
version = "0.1.0"
edition = "2021"
publish = false

[dependencies]
base64 = "0.22"
clap = { version = "4", features = ["derive"] }
colored = "2"
futures = "0.3"
http = "1"
rand = "0.8"
regex = "1"
rustyline-async = "0.3"
tokio = { version = "1", features = ["macros", "rt-multi-thread", "time"] }
tokio-tungstenite = "0.24"
url = "2"
