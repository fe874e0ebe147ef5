[package]
name = "ivc_arith"
version = "0.1.0"
edition = "2021"
publish = false

[dependencies]
bellpepper-core = "=0.4.0"
ff = "0.13"
nova-snark = "=0.76.0"
serde = { version = "*", features = ["derive"] }
serde_json = "*"
