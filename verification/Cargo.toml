[package]
name = "iris_hnsw"
version = "0.1.0"
edition = "2021"
publish = false

[dependencies]
anndists = "*"
bytemuck = "1"
hnsw_rs = "*"
indicatif = "*"
rand = "0.8"
rayon = "1"
