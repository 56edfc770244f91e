[package]
name = "frozenight"
version = "0.1.0"
edition = "2021"
publish = false

[dependencies]
cozy-chess = "=0.3.4"
arrayvec = "=0.7.8"
pdqsort = "=1.0.3"
nohash = "=0.2.0"
rand = "=0.8.8"
bytemuck = { version = "=1.25.2", features = ["derive"] }
structopt = "=0.3.26"
ctrlc = "=3.5.2"
once_cell = "=1.21.4"
vampirc-uci = "=0.11.1"
indexmap = "=2.14.2"
serde = { version = "=1.0.229", features = ["derive"] }
