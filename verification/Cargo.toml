[package]
name = "fiat_shamir"
version = "0.1.0"
edition = "2021"
publish = false

[dependencies]
p3-field = "*"
p3-koala-bear = "*"
p3-symmetric = "*"
p3-challenger = "*"
rand = "*"
