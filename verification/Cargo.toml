[package]
name = "gitcvs"
version = "0.1.0"
edition = "2021"
publish = false

[dependencies]
git2 = { version = "*", default-features = false }
rusqlite = { version = "*", features = ["bundled"] }
subprocess = "*"
tempfile = "*"
filetime = "*"
structopt = "*"
env_logger = "*"
log = "*"
anyhow = "*"
sysconf = "*"
lazy_static = "*"
