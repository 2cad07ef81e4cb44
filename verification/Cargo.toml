[package]
name = "course_log"
version = "0.1.0"
edition = "2021"
publish = false

[dependencies]
serde_json = "1"
reqwest = { version = "*", default-features = false, features = ["json", "rustls-tls"] }
tokio = { version = "1", default-features = false, features = ["macros", "rt-multi-thread", "time"] }
sqlx = { version = "*", default-features = false, features = ["sqlite", "runtime-tokio"] }
