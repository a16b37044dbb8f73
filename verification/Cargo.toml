[package]
name = "blockfall"
version = "0.1.0"
edition = "2021"
publish = false

[dependencies]
rand = "=0.7.3"
rand_chacha = "=0.2.2"
rand_distr = "=0.2.2"
ggez = "=0.5.1"
imgui = "=0.2.1"
log = "=0.4.34"
