[package]
name = "deadpool_postgres"
version = "0.1.0"
edition = "2021"
publish = false

[dependencies]
deadpool = "=0.8.2"
tokio-postgres = "=0.7.18"
async-trait = "=0.1.92"
futures = "=0.3.34"
log = "=0.4.34"
tokio = { version = "=1.53.2", features = ["rt"] }
