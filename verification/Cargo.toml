[package]
name = "gimbal"
version = "0.1.0"
edition = "2021"

[dependencies]
postgres = "0.19"
