[package]
name = "teh_o"
version = "0.1.0"
edition = "2021"
publish = false

[dev-dependencies]
kolmogorov_smirnov = "*"
rand = "*"
statrs = "*"
