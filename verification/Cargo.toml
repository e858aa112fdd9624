[package]
name = "web3_transports"
version = "0.1.0"
edition = "2021"
publish = false

[dependencies]
async-native-tls = { version = "*", default-features = false, features = ["runtime-tokio"] }
derive_more = "0.99"
futures = "0.3"
headers = "*"
jsonrpc-core = "18"
log = "0.4"
reqwest = { version = "0.12", default-features = false, features = ["json"] }
serde = { version = "1", features = ["derive"] }
serde_json = "1"
soketto = "*"
tokio = { version = "1", features = ["io-util", "macros", "net", "rt", "rt-multi-thread", "sync"] }
tokio-stream = { version = "0.1", features = ["net"] }
tokio-util = { version = "0.7", features = ["compat", "io"] }
url = "2"
