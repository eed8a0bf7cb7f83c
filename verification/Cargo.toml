[package]
name = "sherlock_corpus"
version = "0.1.0"
edition = "2021"
publish = false

[dependencies]
anyhow = "1"
clap = { version = "4", features = ["derive"] }
ctrlc = "3"
owo-colors = "4"
quick-xml = "0.37"
regex = "1"
unicode-normalization = "0.1"
