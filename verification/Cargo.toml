[package]
name = "genetic-algorithm"
version = "0.1.0"
edition = "2021"

[dependencies]
fastrand = "1"
