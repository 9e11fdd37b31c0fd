[package]
name = "iot_driver"
version = "0.1.0"
edition = "2021"
publish = false

[dependencies]
crossterm = { version = "0.28", features = ["event-stream"] }
ctrlc = "3"
futures = "0.3"
log = "0.4"
ratatui = "0.29"
throbber-widgets-tui = "0.8"
tokio = { version = "1", features = ["rt", "rt-multi-thread", "macros", "sync", "time", "net", "io-util"] }
tracing = "0.1"
tui-logger = "0.17"
tui-scrollview = "0.5"
