[package]
name = "gridnav"
version = "0.1.0"
edition = "2021"

[dependencies]
kartoffel = "*"
