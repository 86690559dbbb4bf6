[package]
name = "diff-gitignore-filter"
version = "0.1.0"
edition = "2021"
publish = false

[dependencies]
ignore = "=0.4.33"
relative-path = "=2.0.3"
gix = { version = "=0.90.0", default-features = false, features = ["sha1"] }
clap = { version = "=4.6.7", features = ["derive"] }
tempfile = "=3.27.0"
