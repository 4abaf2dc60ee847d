[package]
name = "nu_plugin_servo"
version = "0.1.0"
edition = "2021"
publish = false

[dependencies]
scraper = { version = "=0.27.0", features = ["deterministic"] }
html5ever = "=0.39.0"
xml5ever = "=0.39.0"
ego-tree = "=0.11.0"
data-url = "=0.3.2"
mime = "=0.3.17"
blitz-dom = { version = "=0.2.4", default-features = false }
blitz-html = { version = "=0.2.0", default-features = false }
