[package]
name = "librgb"
version = "0.1.0"
edition = "2021"
publish = false

[dependencies]
bitcoin = { version = "=0.26.2", features = ["use-serde", "rand"] }
lnpbp = { version = "=0.4.0", features = ["serde"] }
rgb-core = { version = "=0.4.4", features = ["serde"] }
rgb20 = { version = "=0.4.0", features = ["serde"] }
rgb_node = "=0.4.2"
internet2 = "=0.3.10"
microservices = "=0.3.10"
serde = "1"
serde_json = "1"
log = "0.4"
env_logger = "0.7"
