[package]
name = "rs_taps"
version = "0.1.0"
edition = "2021"
publish = false

[dependencies]
async-std = "1"
futures = "0.3"
http = "0.2"
itertools = "0.9"
mio = "0.6"
quiche = "0.6"
ring = "0.16"
