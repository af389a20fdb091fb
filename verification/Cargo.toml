[package]
name = "ironrdp-rdpei"
version = "0.1.0"
edition = "2021"
publish = false

[dependencies]
ironrdp-core = { version = "=0.3.1", features = ["std"] }
ironrdp-dvc = "=0.10.0"
ironrdp-error = "=0.2.1"
ironrdp-pdu = "=0.11.0"
ironrdp-svc = "=0.10.0"
tracing = "=0.1.44"
