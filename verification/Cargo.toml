[package]
name = "absolute_cinema"
version = "0.1.0"
edition = "2021"
publish = false

[dependencies]
clap = { version = "4", features = ["derive"] }
crossterm = "0.29"
opencv = { version = "0.95", default-features = false, features = ["imgproc", "videoio"] }
rayon = "1"

[dev-dependencies]
regex = "1"
