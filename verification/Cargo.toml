[package]
name = "rust_order_api"
version = "0.1.0"
edition = "2021"
publish = false

[dependencies]
actix-web = "4"
apalis = { version = "0.4", features = ["redis"] }
diesel = { version = "2", features = ["postgres", "r2d2"] }
dotenvy = "0.15"
futures = "0.3"
r2d2_redis = "0.14"
serde = { version = "1", features = ["derive"] }
serde_json = "1"
