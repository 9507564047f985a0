[package]
name = "nterm"
version = "0.1.0"
edition = "2021"
publish = false

[dependencies]
dirs = "*"
glib = "*"
gtk4 = "*"
libc = "*"
serde = { version = "*", features = ["derive"] }
toml = "*"
vte4 = "*"
