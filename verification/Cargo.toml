[package]
name = "vella-sdk"
version = "0.1.0"
edition = "2021"
publish = false

[dependencies]
base64 = "=0.22.1"
chrono = "=0.4.45"
chrono-tz = "=0.10.4"
html-escape = "=0.2.15"
icalendar = "=0.17.15"
lol_html = "=3.0.2"
mail-parser = "0.11"
rayon = "=1.12.0"
regex = "=1.13.1"
scraper = "=0.29.0"
serde = { version = "=1.0.229", features = ["derive"] }
serde_json = "=1.0.154"
serde_with = "=3.24.0"
tokenizers = { version = "=0.23.2", default-features = false, features = ["fancy-regex"] }
url = "=2.5.8"
