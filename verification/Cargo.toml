[package]
name = "trc_rtt_proxy"
version = "0.1.0"
edition = "2021"
publish = false

[dependencies]
clap = { version = "4", features = ["derive", "env"] }
crossbeam-channel = "0.5"
ctrlc = { version = "3", features = ["termination"] }
exitcode = "1"
human_bytes = "0.4"
probe-rs = "=0.31.0"
serde = { version = "1", features = ["derive"] }
serde_json = "1"
simple_moving_average = "1"
thiserror = "2"
tracing = "0.1"
tracing-subscriber = { version = "0.3", features = ["env-filter"] }
uuid = { version = "1", features = ["v4", "serde"] }
