[package]
name = "pdf_oxide"
version = "0.1.0"
edition = "2021"
publish = false

[dependencies]
cms = "0.2"
der = { version = "0.7", features = ["alloc", "oid"] }
rsa = "0.9"
sha1 = "0.10"
sha2 = "0.10"
flate2 = "1"
log = "0.4"
serde = { version = "1", features = ["derive"] }
serde_json = "1"
tiny-skia = "0.11"
