[package]
name = "vistas"
version = "0.1.0"
edition = "2021"
publish = false

[dependencies]
ndarray = "0.16"
num-complex = "0.4"
complex-bessel = "*"
libm = "0.2"
rustfft = "6"
rand = "0.9"
rand_distr = "0.5"
