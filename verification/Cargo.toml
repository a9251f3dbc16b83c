[package]
name = "termpad"
version = "0.1.0"
edition = "2021"
publish = false

[dependencies]
rand = "0.8"
async-compression = { version = "0.4", features = ["tokio", "zstd"] }
tokio = { version = "1", features = ["full"] }
futures = "0.3"
tokio-util = { version = "0.7", features = ["io"] }
axum = "0.6"
serde = { version = "1", features = ["derive"] }
anyhow = "1"
thiserror = "1"
log = "0.4"
simplelog = "0.12"
once_cell = "1"
dirs-next = "2"
structopt = "0.3"
warp = "0.3"
