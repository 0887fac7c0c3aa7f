[package]
name = "adtensor"
version = "0.1.0"
edition = "2021"
publish = false

[dependencies]
matrixmultiply = "0.3"
num-traits = "0.2"
rand = "0.6"
timeit = "0.1"
