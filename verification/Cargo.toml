[package]
name = "email_template"
version = "0.1.0"
edition = "2021"
publish = false

[dependencies]
lettre = { version = "0.10", default-features = false, features = ["builder"] }
regex = "1"
serde = { version = "1", features = ["derive"] }
serde_json = "1"
