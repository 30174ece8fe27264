[package]
name = "happenings"
version = "0.1.0"
edition = "2021"
publish = false

[dependencies]
uuid = { version = "*", features = ["v4"] }
phonenumber = "*"
sanitizer = "*"
convert_case = "*"
validator = "*"
pluralizer = "*"
serde = { version = "*", features = ["derive"] }
serde_json = "*"
reqwest = { version = "*", default-features = false, features = ["json"] }
tokio = { version = "*", features = ["rt-multi-thread", "macros"] }
futures = "*"
mail-send = "*"
css-inline = "*"
dotenv = "*"
anyhow = "*"
