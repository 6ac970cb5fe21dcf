[package]
name = "bsky_sdk"
version = "0.1.0"
edition = "2021"
publish = false

[dependencies]
regex = "1"
psl = "2"
unicode-segmentation = "1"
chrono = "0.4"
heck = "0.5"
atrium-api = "0.25"
atrium-common = "0.1"
atrium-xrpc = "0.12"
serde = { version = "1", features = ["derive"] }
serde_json = "1"
toml = "0.8"
anyhow = "1"
thiserror = "1"
ipld-core = "0.4"
futures = "0.3"
langtag = "0.4"
http = "1"
clap = { version = "4", features = ["derive"] }
proc-macro2 = "1"
quote = "1"
syn = { version = "2", features = ["full"] }
itertools = "0.13"
trait-variant = "0.1"
