[package]
name = "rusty_handlebars"
version = "0.1.0"
edition = "2021"
publish = false

[dependencies]
regex = "*"
minify-html = "*"
syn = { version = "*", features = ["full"] }
quote = "*"
proc-macro2 = "*"
toml = "*"
