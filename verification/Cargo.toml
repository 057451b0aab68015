[package]
name = "grusp"
version = "0.1.0"
edition = "2021"
publish = false

[dependencies]
regex = "1"
rayon = "1"
glob = "0.3"
colored = "2"
atty = "0.2"
clap = "2"
