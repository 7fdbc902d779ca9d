[package]
name = "rsqrt_evolve"
version = "0.1.0"
edition = "2021"
publish = false

[dependencies]
rayon = "1"
textplots = "*"

[dev-dependencies]
rand = "0.8"
rand_pcg = "0.3"
rand_distr = "0.4"
