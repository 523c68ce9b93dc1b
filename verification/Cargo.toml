[package]
name = "mt_ser"
version = "0.1.0"
edition = "2021"
publish = false

[dependencies]
byteorder = "=1.5.0"
cgmath = "=0.17.0"
collision = "=0.20.1"
convert_case = "=0.12.0"
enumset = "=1.1.15"
flate2 = "=1.1.10"
thiserror = "=1.0.69"
zstd = "=0.14.3"
