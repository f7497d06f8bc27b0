[package]
name = "markdown-includes"
version = "0.1.0"
edition = "2021"
publish = false

[dependencies]
anyhow = "1"
cargo_metadata = "0.15"
fs-err = "2"
itertools = "0.10"
percent-encoding = "2"
pulldown-cmark = { version = "0.9", default-features = false }
string-sections = "*"
syn = { version = "1", features = ["full"] }
toml = "0.5"
