[package]
name = "must"
version = "0.1.0"
edition = "2021"
publish = false

[dependencies]
sha2 = "0.10"
hex = "0.4"
serde = { version = "1", features = ["derive"] }
toml = "0.8"
glob = "0.3"
sled = "0.34"
tokio = { version = "1", features = ["full"] }
clap = { version = "4", features = ["derive"] }
tracing = "0.1"
tracing-subscriber = { version = "0.3", features = ["env-filter"] }
thiserror = "1"
flate2 = "1"
tar = "0.4"
zip = "2"
ureq = "2"
mlua = { version = "0.9", features = ["lua54", "vendored"] }

[dev-dependencies]
tempfile = "3"
