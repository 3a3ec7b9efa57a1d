[package]
name = "oxide_emit"
version = "0.1.0"
edition = "2021"
publish = false

[dependencies]
num-bigint = "0.4"
regress = "0.10"
