[package]
name = "vectordb"
version = "0.1.0"
edition = "2021"
publish = false

[dependencies]
actix-web = "4"
env_logger = "*"
hnsw_rs = "*"
num_cpus = "1"
rayon = "1"
rocksdb = "*"
serde = { version = "1", features = ["derive"] }
serde_json = "1"
