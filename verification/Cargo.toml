[package]
name = "chalkydri"
version = "0.1.0"
edition = "2021"
publish = false

[dependencies]
actix-web = { version = "=4.18.1", default-features = false, features = ["macros"] }
chrono = { version = "0.4", default-features = false, features = ["clock"] }
env_logger = "0.11"
fastrand = "=2.5.0"
image = { version = "=0.25.10", default-features = false }
libcamera = "=0.7.0"
log = "0.4"
mimalloc = { version = "0.1", default-features = false }
mime_guess = "=2.0.5"
minint = "=0.1.0"
once_cell = "1"
rust-embed = "=8.13.0"
serde = { version = "1", features = ["derive"] }
tokio = { version = "1", features = ["macros", "rt-multi-thread", "sync", "time"] }
toml = "=1.1.8"
utoipa = "5"
yuvutils-rs = "=0.8.3"
