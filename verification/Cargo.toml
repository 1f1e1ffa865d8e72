[package]
name = "asc"
version = "0.1.0"
edition = "2021"
publish = false

[dependencies]
basic_trie = { version = "=2.0.0", default-features = false, features = ["data", "serde"] }
directories = "=6.0.0"
serde = { version = "=1.0.229", features = ["derive"] }
serde_json = "=1.0.151"
chrono = "=0.4.45"
clap = { version = "=4.6.7", features = ["derive"] }
handlebars = "=6.4.4"
tracing = "=0.1.44"
toml = "*"
