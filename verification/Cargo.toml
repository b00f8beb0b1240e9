[package]
name = "nyx_space"
version = "0.1.0"
edition = "2021"
publish = false

[dependencies]
toml = "*"
meval = "*"
hifitime = "*"
nalgebra = "*"
prost = "*"
bytes = "*"
serde = { version = "*", features = ["derive"] }
log = "*"
clap = "*"
pretty_env_logger = "*"
rand = "*"
rand_distr = "*"
