[package]
name = "protocol_guide"
version = "0.1.0"
edition = "2021"
publish = false

[dependencies]
actix-cors = "*"
actix-web = { version = "*", default-features = false, features = ["macros"] }
chrono = { version = "*", features = ["serde"] }
dotenvy = "*"
jsonwebtoken = "*"
reqwest = { version = "*", default-features = false, features = ["json"] }
serde = { version = "*", features = ["derive"] }
serde_json = "*"
sqlx = { version = "*", default-features = false, features = ["runtime-tokio", "mysql", "chrono", "derive"] }
thiserror = "*"
tracing = "*"
tracing-subscriber = { version = "*", features = ["env-filter"] }
