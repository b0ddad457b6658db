[package]
name = "askbox"
version = "0.1.0"
edition = "2021"
publish = false

[dependencies]
chrono = "=0.4.45"
actix-web = { version = "=4.15.0", default-features = false, features = ["macros"] }
actix-cors = "=0.7.2"
sqlx = { version = "=0.8.6", default-features = false, features = ["postgres", "runtime-tokio", "chrono", "derive"] }
serde = { version = "=1.0.229", features = ["derive"] }
toml = "=1.1.7"
log = "=0.4.34"
pretty_env_logger = "=0.5.0"
anyhow = "=1.0.104"
thiserror = "=2.0.21"
hcaptcha = "=3.2.7"
