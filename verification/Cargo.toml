[package]
name = "slimes"
version = "0.1.0"
edition = "2021"
publish = false

[dependencies]
rand = "0.8"
rand_distr = "0.4"
clap = { version = "4", features = ["derive"] }
num_cpus = "1"
glob = "0.3"
regex = "1"
