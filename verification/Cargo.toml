[package]
name = "file_fairy"
version = "0.1.0"
edition = "2021"
publish = false

[dependencies]
anyhow = "*"
async-trait = "*"
chrono = "*"
clap = "*"
dotext = "*"
futures = "*"
hdbscan = "*"
linfa = "*"
linfa-clustering = "*"
ndarray = "*"
notify = "*"
num_cpus = "*"
ollama-rs = "*"
pdf-extract = "*"
reqwest = { version = "*", default-features = false, features = ["json"] }
serde = { version = "*", features = ["derive"] }
serde_json = "*"
thiserror = "*"
tokio = { version = "*", features = ["rt-multi-thread", "macros", "fs", "sync", "time"] }
