[package]
name = "coot"
version = "0.1.0"
edition = "2021"
publish = false

[dependencies]
co2mon = "=2.1.1"
config = { version = "=0.15.27", default-features = false, features = ["yaml"] }
env_logger = "=0.11.11"
log = "=0.4.34"
reqwest = { version = "=0.13.5", default-features = false, features = ["blocking", "query"] }
serde = "=1.0.229"
serde_derive = "=1.0.229"
serde_json = "=1.0.154"
snafu = "=0.9.2"
