[package]
name = "sneaky_mouse"
version = "0.1.0"
edition = "2021"
publish = false

[dependencies]
redis = "0.23"
rand = "0.8"
rand_pcg = "0.3"
chrono = "0.4"
