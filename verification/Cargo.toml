[package]
name = "modbus_slave"
version = "0.1.0"
edition = "2021"
publish = false

[dependencies]
tokio = { version = "*", features = ["full"] }
tokio-modbus = { version = "*", features = ["tcp-server"] }
tokio-util = "*"
