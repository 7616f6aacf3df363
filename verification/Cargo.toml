[package]
name = "progigs"
version = "0.1.0"
edition = "2021"
publish = false

[dependencies]
base64 = "0.13"
bcrypt = "0.13"
rocket = { version = "0.5.0-rc.2", features = ["json", "secrets"] }
mongodb = "2.3"
bson = "2.4"
serde = { version = "1", features = ["derive"] }
dotenv = "0.15"

[dev-dependencies]
regex = "1"
