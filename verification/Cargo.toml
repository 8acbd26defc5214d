[package]
name = "gmt_fem_frequency_response"
version = "0.1.0"
edition = "2021"
publish = false

[dependencies]
lz4_flex = "*"
bincode = { version = "2", features = ["serde"] }
serde = { version = "1", features = ["derive"] }
clap = { version = "4", features = ["derive"] }
nalgebra = "*"
num-complex = "*"
rayon = "*"
indicatif = { version = "*", features = ["rayon"] }
serde-pickle = "*"
matio-rs = "*"
anyhow = "*"
gmt-fem = "*"
gmt_dos-clients_fem = "*"
