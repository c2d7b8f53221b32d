[package]
name = "ambiway"
version = "0.1.0"
edition = "2021"
publish = false

[dependencies]
clap = { version = "*", features = ["derive"] }
directories = "*"
opencv = { version = "*", default-features = false, features = ["videoio"] }
openrgb2 = "*"
rgb = "*"
serde = { version = "*", features = ["derive"] }
tokio = { version = "*", features = ["rt-multi-thread", "time"] }
toml = "*"
xrandr = "*"
