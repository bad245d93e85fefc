[package]
name = "vinted_logger"
version = "0.1.0"
edition = "2021"
publish = false

[dependencies]
bytes = "1"
chrono = "0.4"
futures-channel = { version = "0.3", features = ["sink"] }
futures-util = { version = "0.3", features = ["sink"] }
gethostname = "0.2"
parking_lot = "0.11"
serde = "1"
serde_json = "1"
tokio = { version = "1", features = ["net", "time", "rt-multi-thread", "macros", "sync"] }
tokio-util = { version = "0.6", features = ["net", "codec"] }
tracing = "0.1"
tracing-core = "0.1"
tracing-serde = "0.1"
tracing-subscriber = "0.2"
