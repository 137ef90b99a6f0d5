[package]
name = "clear_packets"
version = "0.1.0"
edition = "2021"
publish = false

[dependencies]
abscissa_core = "=0.6.0"
actix = "=0.13.5"
cosmos-sdk-proto = { version = "=0.14.0", features = ["grpc"] }
ibc = "=0.19.0"
ibc-relayer = "=0.19.0"
tokio = "=1.54.1"
