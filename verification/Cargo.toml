[package]
name = "plevy"
version = "0.1.0"
edition = "2021"
publish = false

[dependencies]
anyhow = "=1.0.104"
bincode = "=1.3.3"
fuse = "=0.3.1"
libc = "=0.2.191"
log = "=0.4.34"
serde = { version = "=1.0.229", features = ["derive"] }
serde_yaml = "=0.8.26"
simplelog = "=0.12.2"
sled = "=0.34.7"
structopt = "=0.3.26"
time = "=0.1.45"
tokio = { version = "=1.54.1", features = ["macros", "rt-multi-thread"] }
warp = "=0.3.7"
