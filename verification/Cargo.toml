[package]
name = "sitemirror"
version = "0.1.0"
edition = "2021"
publish = false

[dependencies]
url = "*"
select = "*"
clap = "*"
reqwest = { version = "*", default-features = false, features = ["blocking"] }
