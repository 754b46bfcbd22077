[package]
name = "to_appimage"
version = "0.1.0"
edition = "2021"
publish = false

[dependencies]
clap = { version = "*", features = ["derive"] }
dialog = "*"
image = "*"
itertools = "*"
path-utils = "*"
quick-xml = { version = "*", features = ["serialize"] }
serde = { version = "*", features = ["derive"] }
serde_yaml = "*"
thiserror = "*"
which = "*"
