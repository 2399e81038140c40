[package]
name = "cat_zzz"
version = "0.1.0"
edition = "2021"
publish = false

[dependencies]
image = "*"
minifb = "*"
rand = "*"
rodio = "*"
rusttype = "*"
