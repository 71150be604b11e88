[package]
name = "toolbox"
version = "0.1.0"
edition = "2021"
publish = false

[dependencies]
path-clean = "1"
hex = "0.4"
log = "0.4"
tokio = { version = "1", features = ["full"] }
hyper = { version = "1", features = ["full"] }
hyper-util = { version = "0.1", features = ["full"] }
http-body-util = "0.1"
aws-sdk-s3 = "1"
indicatif = "0.17"
proc-mounts = "0.3"
tabled = "*"
esp-idf-svc = "*"

[dev-dependencies]
nom = "7"
