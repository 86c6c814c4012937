[package]
name = "sqlx_data"
version = "0.1.0"
edition = "2021"
publish = false

[dependencies]
fancy-regex = "=0.20.0"
sqlparser = "=0.63.0"
serde = { version = "=1.0.229", features = ["derive"] }
serde_json = "=1.0.154"
syn = { version = "=2.0.119", features = ["full", "extra-traits"] }
quote = "=1.0.47"
proc-macro2 = "=1.0.107"
prettyplease = "=0.2.37"
thiserror = "=2.0.21"
