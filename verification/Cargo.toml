[package]
name = "mount_toy_db"
version = "0.1.0"
edition = "2021"
publish = false

[dependencies]
regex = "1"
html-escape = "*"
byteorder = "1"
serde = { version = "1", features = ["derive"] }
serde_json = "1"
serde_json5 = "0.2"
serde_yaml = "0.9"
csv = "1"
reqwest = { version = "0.12", default-features = false, features = ["blocking"] }
palette = "0.7"
kmeans_colors = "0.7"
wow-blp = "*"
image = "*"
