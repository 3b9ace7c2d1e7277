[package]
name = "hdiff_apply"
version = "0.1.0"
edition = "2021"
publish = false

[dependencies]
md-5 = "0.10"
rand = "0.9"
prost = "*"
ruzstd = "*"
rayon = "1"
