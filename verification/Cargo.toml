[package]
name = "pi_status"
version = "0.1.0"
edition = "2021"
publish = false

[dependencies]
nix = { version = "*", features = ["fs", "feature"] }
actix = "*"
actix-files = "*"
actix-ip-filter = "*"
actix-web = "*"
actix-web-actors = "*"
clap = { version = "*", features = ["derive"] }
env_logger = "*"
log = "*"
rayon = "*"

[dev-dependencies]
serde_json = "*"
