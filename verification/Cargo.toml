[package]
name = "apexshot"
version = "0.2.19"
edition = "2021"
publish = false

[dependencies]
rqrr = "=0.11.0"
image = "=0.24.9"
rayon = "=1.12.0"
chrono = "=0.4.45"
anyhow = "=1.0.104"
thiserror = "=2.0.21"
libc = "=0.2.191"

[dev-dependencies]
qrcode = "*"
