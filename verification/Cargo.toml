[package]
name = "ironrdp_dvc_server"
version = "0.1.0"
edition = "2021"
publish = false

[dependencies]
ironrdp-core = { version = "=0.2.1", features = ["alloc"] }
ironrdp-error = "=0.2.1"
ironrdp-pdu = "=0.9.0"
ironrdp-svc = "=0.8.0"
ironrdp-egfx = "=0.3.0"
tracing = "0.1"
