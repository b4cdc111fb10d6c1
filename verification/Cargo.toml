[package]
name = "celeris"
version = "0.1.0"
edition = "2021"
publish = false

[dependencies]
sanitize-filename = "=0.6.0"
clap = { version = "=4.6.7", features = ["derive", "env"] }
serde = { version = "=1.0.229", features = ["derive"] }
toml = "=1.1.6"
dirs = "=7.0.0"
handlebars = "=6.4.4"
walkdir = "=2.5.0"
git2 = { version = "=0.21.0", default-features = false }
mlua = { version = "=0.12.2", features = ["lua54", "vendored", "serialize"] }
