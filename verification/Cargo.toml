[package]
name = "okpalette"
version = "0.1.0"
edition = "2021"
publish = false

[dependencies]
clap = { version = "*", features = ["derive"] }
colored = "*"
image = "*"
nix = { version = "*", features = ["signal"] }
okolors = "*"
palette = "*"
rayon = "*"
