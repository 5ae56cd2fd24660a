[package]
name = "nncore"
version = "0.1.0"
edition = "2021"
publish = false

[dependencies]
mnist = "*"
rand = "*"
rand_distr = "*"
