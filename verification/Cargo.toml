[package]
name = "relay_agent"
version = "0.1.0"
edition = "2021"
publish = false

[dependencies]
async-trait = "0.1"
color-eyre = "0.6"
ethers = { version = "2", default-features = false }
futures-util = "0.3"
log = "0.4"
tracing = "0.1"
