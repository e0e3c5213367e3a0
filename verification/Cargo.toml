[package]
name = "arbitrage"
version = "0.1.0"
edition = "2021"
publish = false

[dependencies]
serde_json = { version = "=1.0.151", features = ["arbitrary_precision"] }
tokio = { version = "=1.53.2", features = ["full"] }
tokio-tungstenite = "=0.30.0"
futures-util = "=0.3.34"
warp = { version = "=0.4.3", features = ["server", "websocket"] }
log = "=0.4.34"
dotenvy = "=0.15.7"
config = { version = "=0.15.27", default-features = false }
jiff = "=0.2.38"
async-trait = "=0.1.92"
