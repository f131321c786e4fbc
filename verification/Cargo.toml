[package]
name = "grpc_php_rs"
version = "0.1.0"
edition = "2021"
publish = false

[dependencies]
bytes = "=1.12.1"
http = "=1.5.0"
tonic = { version = "=0.14.9", features = ["transport", "tls-ring", "tls-native-roots"] }
tokio = { version = "=1.54.1", features = ["rt", "rt-multi-thread", "macros", "net", "sync", "time"] }
tokio-stream = "=0.1.19"
tokio-util = "=0.7.20"
parking_lot = "=0.12.5"
ext-php-rs = "=0.15.15"
