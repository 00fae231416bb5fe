[package]
name = "snapr"
version = "0.1.0"
edition = "2021"
publish = false

[dependencies]
anyhow = "1"
async-trait = "0.1"
geo = "0.28"
hex = "0.4"
image = { version = "0.25", default-features = false }
rayon = "1"
resvg = "0.44"
thiserror = "1"
tiny-skia = "0.11"
tokio = { version = "1", features = ["rt"] }
wkt = "*"
