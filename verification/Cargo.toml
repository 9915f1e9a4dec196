[package]
name = "sensor_gateway"
version = "0.1.0"
edition = "2021"
publish = false

[dependencies]
actix-files = "0.5"
actix-web = "3"
btleplug = "0.5"
chrono = { version = "0.4", features = ["serde"] }
diesel = { version = "1.4", features = ["sqlite", "r2d2", "chrono"] }
diesel_migrations = "1.4"
env_logger = "0.8"
log = "0.4"
serde = { version = "1", features = ["derive"] }
signal-hook = "0.1"
