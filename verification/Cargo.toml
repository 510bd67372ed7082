[package]
name = "svg2glif"
version = "0.1.0"
edition = "2021"
publish = false

[dependencies]
norad = "=0.19.0"
roxmltree = "=0.21.1"
clap = { version = "=4.6.7", features = ["derive"] }
anyhow = "=1.0.104"
svgtypes = "*"
