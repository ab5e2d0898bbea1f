[package]
name = "dano"
version = "0.1.0"
edition = "2021"
publish = false

[dependencies]
clap = "3.2"
crossbeam-channel = "0.5"
itertools = "0.10"
md-5 = "0.10"
num_cpus = "1"
primitive-types = "0.12"
rayon = "1"
serde = { version = "1", features = ["derive"] }
serde_json = "1"
which = "4"
xattr = "1"
