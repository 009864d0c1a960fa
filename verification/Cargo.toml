[package]
name = "rlox"
version = "0.1.0"
edition = "2021"
publish = false

[dependencies]
aho-corasick = "1"
nom = "7"
rustc_apfloat = "*"
clap = { version = "4", features = ["derive"] }
thiserror = "*"
