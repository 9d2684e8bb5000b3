[package]
name = "mixxx_library_converter"
version = "0.1.0"
edition = "2021"
publish = false

[dependencies]
percent-encoding = "2"
chrono = "0.4"
serde = { version = "1", features = ["derive"] }
serde_json = "1"
quick-xml = { version = "*", features = ["serialize"] }
anyhow = "1"
clap = { version = "4", features = ["derive"] }
dirs = "*"
shellexpand = "*"
dotenv = "0.15"
log = "0.4"
pretty_env_logger = "*"
better-panic = "*"
confique = { version = "*", features = ["yaml"] }
sqlx = { version = "*", default-features = false, features = ["runtime-tokio", "sqlite", "chrono", "macros"] }
tokio = { version = "1", features = ["macros", "rt-multi-thread"] }
