[package]
name = "cubos_sql"
version = "0.1.0"
edition = "2021"
publish = false

[dependencies]
base64 = "=0.22.1"
bb8 = "=0.9.1"
bb8-postgres = "=0.9.0"
bytes = "=1.12.1"
chrono = "=0.4.45"
deadpool-postgres = "=0.14.2"
pg_query = "=6.2.1"
postgres = "=0.19.14"
prost = "=0.13.5"
rust_decimal = "=1.43.0"
serde = { version = "=1.0.229", features = ["derive"] }
serde_json = "=1.0.154"
serde_tuple = "=1.1.3"
thiserror = "=2.0.21"
tokio-postgres = { version = "=0.7.18", features = ["with-chrono-0_4"] }
