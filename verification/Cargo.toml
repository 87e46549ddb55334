[package]
name = "tokio-console"
version = "0.1.0"
edition = "2021"
publish = false

[dependencies]
humantime = "=2.4.0"
hdrhistogram = "=7.6.0"
console-api = "=0.9.0"
prost-types = "=0.14.4"
clap = { version = "=4.6.7", features = ["derive", "env"] }
clap_complete = "=4.6.11"
color-eyre = "=0.6.5"
crossterm = "=0.29.0"
ratatui = "=0.30.2"
tokio = { version = "=1.54.1", features = ["full"] }
tonic = "=0.14.9"
tracing = "=0.1.44"
tracing-subscriber = { version = "=0.3.23", features = ["env-filter", "fmt", "registry"] }
serde = { version = "=1.0.229", features = ["derive"] }
toml = "=1.1.8"
dirs = "=7.0.0"
futures = "=0.3.34"
regex = "=1.13.1"
tower = { version = "=0.5.3", features = ["util"] }
hyper-util = { version = "=0.1.21", features = ["tokio"] }
