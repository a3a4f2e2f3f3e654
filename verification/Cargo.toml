[package]
name = "evosim"
version = "0.1.0"
edition = "2021"
publish = false

[dependencies]
rand = "=0.8.8"
serde = { version = "1", features = ["derive"] }
serde_json = "1"
num_cpus = "1"
rayon = "1"
itertools = "0.12"
structopt = "0.3"
ordered-float = { version = "3", features = ["serde"] }
