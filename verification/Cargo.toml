[package]
name = "solang"
version = "0.1.0"
edition = "2021"
publish = false

[dependencies]
num-bigint = "=0.4.8"
num-rational = "=0.4.2"
num-traits = "=0.2.19"
anchor-syn = { version = "=0.25.0", features = ["idl"] }
clap = "=4.6.7"
serde_json = "=1.0.154"
