[package]
name = "iqdb_build"
version = "0.6.0"
edition = "2021"
publish = false

[dependencies]
iqdb-index = "*"
iqdb-types = "*"
rayon = "1"
