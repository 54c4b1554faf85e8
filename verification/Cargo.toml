[package]
name = "liteparse_ooxml"
version = "0.1.0"
edition = "2021"
publish = false

[dependencies]
quick-xml = "=0.38.4"
fontdb = "=0.24.0"
skrifa = "=0.49.0"
tiny-skia = "=0.12.0"
image = { version = "=0.25.10", default-features = false, features = ["png", "jpeg", "gif", "bmp", "tiff", "webp"] }
rustc-hash = "=2.1.3"
log = "0.4"
thiserror = "=2.0.21"
zip = { version = "=9.2.2", default-features = false, features = ["deflate"] }
