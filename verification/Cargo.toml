[package]
name = "activity_playground"
version = "0.1.0"
edition = "2021"
publish = false

[dependencies]
openssl = "*"
url = "*"
reqwest = { version = "*", default-features = false, features = ["blocking", "json"] }
httpdate = "*"
actix-web = "*"

[dev-dependencies]
serde_json = "*"
