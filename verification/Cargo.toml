[package]
name = "zscale"
version = "0.1.0"
edition = "2021"
publish = false

[dependencies]
clap = { version = "4", features = ["derive"] }
fitsio = { version = "*", features = ["array"] }
image = "*"
ndarray = "*"
ndarray-linalg = "*"
viuer = "*"
