[package]
name = "daaku_dprint_plugin_sql"
version = "0.1.0"
edition = "2021"
publish = false

[dependencies]
sqlformat = "*"
dprint-core = "*"
serde = { version = "*", features = ["derive"] }
anyhow = "*"
