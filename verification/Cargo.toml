[package]
name = "exchange"
version = "0.1.0"
edition = "2021"
publish = false

[dependencies]
rust_decimal = "1"
uuid = { version = "1", features = ["v4"] }
jsonwebtoken = "9"
bcrypt = "*"
serde = { version = "1", features = ["derive"] }
serde_json = "1"
tokio = { version = "1", features = ["rt-multi-thread", "macros", "sync", "net", "time"] }
redis = { version = "*", features = ["tokio-comp", "streams"] }
actix-web = "4"
sqlx = { version = "0.8", features = ["postgres", "runtime-tokio", "uuid"] }
dotenvy = "0.15"
env_logger = "*"
dashmap = "6"
futures-util = "0.3"
tokio-tungstenite = "*"
derive_more = { version = "2", features = ["display"] }
