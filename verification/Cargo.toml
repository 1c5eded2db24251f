[package]
name = "realtor_query"
version = "0.1.0"
edition = "2021"
publish = false

[dependencies]
rand = "*"
chrono = "*"
reqwest = { version = "*", default-features = false, features = ["blocking", "cookies"] }
