[package]
name = "pq"
version = "1.4.0"
edition = "2021"
publish = false

[dependencies]
byteorder = "1"
Inflector = "0.11"
protobuf = "2"
serde-protobuf = "0.8"
serde-value = "0.7"
serde-transcode = "1"
serde = "1"
serde_json = "1"
clap = "2"
dirs = "*"
libc = "0.2"
rdkafka = "*"
kafka = { version = "*", default-features = false }
