[package]
name = "devconcurrent"
version = "0.1.0"
edition = "2021"
publish = false

[dependencies]
tabular = "=0.2.0"
shlex = "=2.0.1"
bollard = "=0.21.1"
tokio = { version = "=1.53.2", features = ["full"] }
futures = "=0.3.34"
clap = { version = "=4.6.7", features = ["derive"] }
clap_complete = { version = "=4.6.11", features = ["unstable-dynamic"] }
serde = { version = "=1.0.229", features = ["derive"] }
serde_json = "=1.0.151"
serde_with = "*"
serde-inline-default = "*"
serde_path_to_error = "*"
toml = "*"
directories = "=6.0.0"
shellexpand = "=3.1.2"
indexmap = { version = "=2.14.2", features = ["serde"] }
eyre = "=0.6.14"
color-eyre = "*"
tracing = "=0.1.44"
tracing-subscriber = "=0.3.23"
tracing-indicatif = "*"
indicatif = "*"
crossterm = "*"
pty-process = { version = "=0.5.3", features = ["async"] }
nucleo-picker = "=0.12.2"
vec1 = "*"
