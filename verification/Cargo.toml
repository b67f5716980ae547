[package]
name = "iec61850"
version = "0.1.0"
edition = "2021"
publish = false

[dependencies]
async-trait = "*"
lazy_static = "*"
num-traits = "*"
rasn = "*"
serde = { version = "*", features = ["derive"] }
serde_json = "*"
snafu = "*"
time = { version = "*", features = ["serde", "parsing"] }
tokio = { version = "*", features = ["net", "io-util", "sync", "time", "rt", "macros"] }
tokio-native-tls = "*"
tracing = "*"
tracing-error = "*"
