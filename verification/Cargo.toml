[package]
name = "prototool"
version = "0.1.0"
edition = "2021"
publish = false

[dependencies]
anyhow = "*"
arboard = "*"
chrono = { version = "*", features = ["serde"] }
clap = { version = "*", features = ["derive"] }
inquire = "*"
libc = "*"
opener = "*"
owo-colors = "*"
reqwest = { version = "*", default-features = false, features = ["blocking", "json"] }
rustix = { version = "*", features = ["stdio"] }
serde = { version = "*", features = ["derive"] }
url = "*"
uuid = { version = "*", features = ["serde"] }
