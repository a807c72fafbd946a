[package]
name = "rostige_schlange"
version = "0.1.0"
edition = "2021"
publish = false

[dependencies]
alga = "=0.5.4"
gl = "=0.14.0"
glutin = "=0.19.0"
image = "=0.18.0"
libc = "=0.2.191"
nalgebra = "0.32"
rand = "=0.4.6"
time = "=0.1.45"
