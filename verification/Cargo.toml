[package]
name = "cardinal-geocoder"
version = "0.1.0"
edition = "2021"
publish = false

[dependencies]
geo = "*"
mvt-reader = "*"
regex = "*"
s2 = "*"
serde = { version = "*", features = ["derive"] }
tantivy = "*"
thiserror = "*"
uniffi = "*"
