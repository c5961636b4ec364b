[package]
name = "opensrdk_probability"
version = "0.1.0"
edition = "2021"
publish = false

[dependencies]
num-integer = "=0.1.47"
opensrdk-kernel-method = "0.1"
opensrdk-linear-algebra = "=0.9.3"
rand = "=0.8.8"
rand_distr = "=0.4.3"
rayon = "=1.12.0"
thiserror = "=1.0.69"
