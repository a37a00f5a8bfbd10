[package]
name = "rtriangulate"
version = "0.3.1"
edition = "2021"
publish = false

[dependencies]
num-traits = "0.2"
