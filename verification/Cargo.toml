[package]
name = "sphinx"
version = "0.1.0"
edition = "2021"
publish = false

[dependencies]
aes = "*"
ctr = "*"
hmac = "*"
sha2 = "*"
curve25519-dalek = "*"
rand = "*"
rand_distr = "*"
