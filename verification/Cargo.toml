[package]
name = "som_interpreter"
version = "0.1.0"
edition = "2021"
publish = false

[dependencies]
indexmap = "2"
num-bigint = "=0.4.8"
num-traits = "=0.2.19"
rand = "=0.9.5"
