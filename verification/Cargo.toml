[package]
name = "buddhabrot"
version = "0.1.0"
edition = "2021"
publish = false

[dependencies]
anyhow = "1"
bytemuck = { version = "1", features = ["derive"] }
clap = { version = "4", features = ["derive"] }
env_logger = "0.11"
flume = "0.11"
glob = "0.3"
itertools = "0.12"
log = "0.4"
num = "0.4"
png = "0.17"
pollster = "0.3"
rand = "0.8"
wgpu = "0.19"
zip = "0.6"
