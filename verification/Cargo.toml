[package]
name = "colony_world"
version = "0.1.0"
edition = "2021"
publish = false

[dependencies]
candid = "=0.7.14"
sha2 = "=0.10.9"
serde = { version = "=1.0.229", features = ["derive"] }
serde_bytes = "=0.11.19"
ic-cdk = "=0.5.0"
ic-cdk-macros = "=0.5.0"
ic-agent = "=0.16.0"
ic-utils = "=0.16.0"
ic-types = "=0.3.0"
garcon = "=0.2.3"
tokio = { version = "=1.54.1", features = ["full"] }
clap = { version = "=3.2.25", features = ["derive"] }
