[package]
name = "user_crud"
version = "0.1.0"
edition = "2021"
publish = false

[dependencies]
tokio = { version = "1", features = ["full"] }
axum = "=0.8.9"
async-graphql = "=7.2.1"
async-graphql-axum = "=7.2.1"
mongodb = "=2.8.2"
serde = { version = "1", features = ["derive"] }
serde_json = "1"
dotenv = "0.15"
futures = "0.3"
