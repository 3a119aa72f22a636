[package]
name = "andy"
version = "0.1.0"
edition = "2021"
publish = false

[dependencies]
chrono = { version = "0.4", features = ["serde"] }
pulldown-cmark = { version = "0.9", default-features = false }
syntect = { version = "5", default-features = false, features = ["default-fancy"] }
serde = { version = "1", features = ["derive"] }
serde_json = "1"
thiserror = "1"
log = "0.4"
env_logger = "0.10"
tokio = { version = "1", features = ["fs", "rt-multi-thread", "macros"] }
actix-web = { version = "4", default-features = false, features = ["macros"] }
actix-files = "0.6"
handlebars = { version = "4", features = ["dir_source"] }
