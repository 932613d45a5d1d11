[package]
name = "kas_verified"
version = "0.1.0"
edition = "2021"
publish = false

[dependencies]
guillotiere = "=0.6.2"
linear-map = "=1.2.0"
tiny-skia = "=0.11.4"
serde = { version = "=1.0.229", features = ["derive"] }
proc-macro2 = "=1.0.107"
syn = { version = "2", features = ["full"] }
quote = "=1.0.47"
impl-tools-lib = "*"
