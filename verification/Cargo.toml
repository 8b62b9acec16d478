[package]
name = "fractal_calculator"
version = "0.1.0"
edition = "2021"
publish = false

[dependencies]
image = "=0.24.9"
ndarray = "=0.15.6"
num-complex = "0.4"
