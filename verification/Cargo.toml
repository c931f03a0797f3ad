[package]
name = "ps_function"
version = "0.1.0"
edition = "2021"
publish = false

[dependencies]
libm = "*"
bytemuck = "*"
const_soft_float = "*"
rustc_apfloat = "*"
