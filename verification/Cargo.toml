[package]
name = "dnxhd_transcoder"
version = "0.1.0"
edition = "2021"
publish = false

[dependencies]
anyhow = "1"
gtk4 = "0.7"
percent-encoding = "2"
