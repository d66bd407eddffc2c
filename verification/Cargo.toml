[package]
name = "eslauncher2"
version = "0.1.0"
edition = "2021"
publish = false

[dependencies]
anyhow = "1"
log = "0.4"
simplelog = "0.12"
serde = { version = "1", features = ["derive"] }
serde_json = "1"
serde-xml-rs = "*"
ureq = { version = "2", features = ["json"] }
parse_link_header = "*"
regex = "1"
zip = { version = "2", default-features = false, features = ["deflate"] }
flate2 = "1"
tar = "0.4"
dirs = "*"
platform-dirs = "*"
time = { version = "0.3", features = ["formatting"] }
open = "*"
