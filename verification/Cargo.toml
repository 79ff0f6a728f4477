[package]
name = "voronoi"
version = "0.1.0"
edition = "2021"
publish = false

[dependencies]
colored = "2"
image = "0.24"
rand = "0.8"
