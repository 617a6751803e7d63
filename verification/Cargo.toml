[package]
name = "schedin"
version = "0.1.0"
edition = "2021"
publish = false

[dependencies]
time = { version = "0.3", features = ["parsing", "formatting"] }
uuid = { version = "1", features = ["v4"] }
base64 = "0.22"
sha2 = "0.10"
hex = "0.4"
serde = { version = "1", features = ["derive"] }
validator = { version = "0.16", features = ["derive"] }
jsonwebtoken = "9"
futures = "0.3"
tokio = { version = "1", features = ["rt", "macros", "time"] }
actix-web = { version = "4", default-features = false, features = ["macros"] }
sqlx = { version = "0.7", default-features = false, features = ["postgres", "runtime-tokio", "macros", "time", "uuid"] }
