[package]
name = "deptox"
version = "0.1.0"
edition = "2021"
publish = false

[dependencies]
jwalk = "*"
dirs = "*"
crossbeam-channel = "*"
num_cpus = "*"
tokio = { version = "*", features = ["rt-multi-thread", "sync", "time", "macros"] }
tokio-util = "*"
serde = { version = "*", features = ["derive"] }
serde_json = "*"
trash = "*"

[dev-dependencies]
tempfile = "*"
fs-err = "*"
