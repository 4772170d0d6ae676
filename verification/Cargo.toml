[package]
name = "eyebeam"
version = "0.1.0"
edition = "2021"
publish = false

[dependencies]
anyhow = "*"
argparse = "*"
image = { version = "*", default-features = false }
ndarray = "*"
raster = "*"
tobj = "*"
video-rs = { version = "*", features = ["ndarray"] }
