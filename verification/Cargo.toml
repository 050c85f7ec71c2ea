[package]
name = "osmio"
version = "0.14.0"
edition = "2021"
publish = false

[dependencies]
byteorder = "1"
chrono = { version = "0.4", default-features = false, features = ["std"] }
flate2 = "1"
protobuf = "3"
anyhow = "1"
quick-xml = "0.31"
xml-rs = "0.8"
