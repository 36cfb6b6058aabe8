[package]
name = "supmcu_rs"
version = "0.1.0"
edition = "2021"
publish = false

[dependencies]
crc = "*"
itertools = "*"
serde = { version = "1", features = ["derive"] }
serde_json = "1"
tokio = { version = "1", features = ["rt-multi-thread", "time"] }
async-scoped = { version = "*", features = ["use-tokio"] }
futures = "0.3"
i2cdev = "*"
clap = { version = "3", features = ["derive"] }
flexi_logger = "*"
log = "*"
anyhow = "1"
thiserror = "1"
async-graphql = "*"

[dev-dependencies]
byteorder = "1"
rand = { version = "0.8", features = ["small_rng"] }
