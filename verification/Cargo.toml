[package]
name = "power_msmt"
version = "0.1.0"
edition = "2021"
publish = false

[dependencies]
anyhow = "*"
arrow = { version = "*", default-features = false }
parquet = { version = "*", default-features = false, features = ["arrow", "zstd"] }
bpaf = { version = "*", features = ["derive"] }
csv = "*"
futures = "*"
log = "*"
parse_duration = "*"
pico-sdk = "*"
quick-xml = { version = "*", features = ["serialize"] }
reqwest = { version = "*", default-features = false, features = ["blocking", "json", "rustls-tls"] }
serde = { version = "*", features = ["derive"] }
shell-words = "*"
simple_logger = "*"
tekhsi_rs = "*"
visa-rs = "*"
