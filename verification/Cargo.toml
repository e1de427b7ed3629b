[package]
name = "sepia"
version = "0.2.0"
edition = "2021"
publish = false

[dependencies]
chrono = "0.4"
clap = { version = "4", features = ["derive"] }
color-eyre = "0.6"
image = "0.23"
img_hash = "3"
log = "0.4"
log4rs = "1"
xcap = "*"
