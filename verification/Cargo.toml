[package]
name = "image_converter"
version = "2.4.0"
edition = "2021"
publish = false

[dependencies]
image = { version = "0.24", default-features = false, features = ["png", "jpeg", "webp", "tiff", "bmp", "ico"] }
webp = "*"
ravif = { version = "*", default-features = false, features = ["threading"] }
clap = { version = "4.5", features = ["derive"] }
colored = "*"
dialoguer = "*"
indicatif = "*"
rayon = "*"
walkdir = "2.5"
thiserror = "*"
tokio = { version = "1", features = ["full"] }
axum = { version = "*", features = ["multipart"] }
tower-http = { version = "*", features = ["cors"] }
tempfile = "3"
libheif-rs = "*"
