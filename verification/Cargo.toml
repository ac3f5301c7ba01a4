[package]
name = "fiction_tools"
version = "0.1.0"
edition = "2021"
publish = false

[dependencies]
indexmap = "=2.14.2"
krilla = "=0.8.2"
mdbook = { version = "=0.4.52", default-features = false }
pulldown-cmark = { version = "=0.12.2", default-features = false }
pulldown-cmark-to-cmark = "=20.0.1"
semver = "=1.0.28"
serde = { version = "=1.0.229", features = ["derive"] }
serde_derive = "=1.0.229"
serde_json = "=1.0.154"
time = { version = "=0.3.55", features = ["formatting"] }
toml = "=0.5.11"
uuid = { version = "=1.29.0", features = ["v7", "serde"] }
xml-rs = "=0.8.29"
zip = "=0.6.6"
