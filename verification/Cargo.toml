[package]
name = "pay_engine"
version = "0.1.0"
edition = "2021"
publish = false

[dependencies]
rand = "0.8"
csv = "1"
serde = { version = "1", features = ["derive"] }
log = "0.4"
simple_logger = "4"
thiserror = "1"
