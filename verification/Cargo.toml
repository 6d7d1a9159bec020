[package]
name = "rlaunch"
version = "0.1.0"
edition = "2021"
publish = false

[dependencies]
flate2 = "*"
hex = "*"
serde = { version = "*", features = ["derive"] }
sha1 = "*"
sha2 = "*"
tar = "*"
ureq = { version = "2", features = ["json"] }
zip = "*"
