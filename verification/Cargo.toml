[package]
name = "blocks_n_stuff"
version = "0.1.0"
edition = "2021"
publish = false

[dependencies]
hashbrown = "0.14"
rustc-hash = "1"
smallvec = "1"
parking_lot = "0.12"
glam = "0.25"
