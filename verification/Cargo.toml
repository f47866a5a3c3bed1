[package]
name = "jyt"
version = "0.1.0"
edition = "2021"
publish = false

[dependencies]
serde = "1"
serde_json = "1"
serde_yaml = "0.9"
serde-transcode = "1"
toml = "0.8"
atty = "0.2"
memmap2 = "0.9"
structopt = "0.3"
clap = "2"
