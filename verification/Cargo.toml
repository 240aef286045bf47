[package]
name = "jjfsd"
version = "0.1.0"
edition = "2021"
publish = false

[dependencies]
anyhow = "1"
async-trait = "0.1"
fuser = "=0.18.0"
futures = "0.3"
itertools = "=0.14.0"
jj-lib = { version = "=0.42.0", default-features = false }
pollster = "0.4"
thiserror = "2"
tokio = { version = "1", features = ["rt-multi-thread", "signal", "macros"] }
tracing = "0.1"
tracing-subscriber = { version = "0.3", features = ["env-filter"] }
ustr = "=1.1.0"

[dev-dependencies]
tempfile = "3"
