[package]
name = "transcript_search"
version = "0.1.0"
edition = "2021"
publish = false

[dependencies]
actix-cors = "0.7"
actix-multipart = { version = "0.7", default-features = false }
actix-web = { version = "4", default-features = false, features = ["macros"] }
dotenv = "0.15"
futures-util = "0.3"
regex = "1"
sanitize-filename = "0.5"
serde = { version = "1", features = ["derive"] }
serde_json = "1"
sqlx = { version = "0.7", default-features = false, features = ["macros", "migrate", "runtime-tokio", "sqlite"] }
tokio = { version = "1", features = ["fs", "io-std", "io-util", "macros", "rt-multi-thread", "sync"] }
walkdir = "2"
zip = { version = "0.6", default-features = false, features = ["deflate"] }
