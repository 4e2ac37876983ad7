[package]
name = "swc_plugins"
version = "0.1.0"
edition = "2021"
publish = false

[dependencies]
md5 = "=0.8.1"
heck = "=0.5.0"
handlebars = "=6.4.4"
swc_cached = "=2.0.0"
serde = { version = "=1.0.229", features = ["derive"] }
serde_json = "=1.0.154"
rustc-hash = "=2.1.3"
colored = "=3.1.1"
nodejs-resolver = "=0.1.1"
