[package]
name = "sworker"
version = "0.1.0"
edition = "2021"
publish = false

[dependencies]
sgx_types = "*"
sgx_tcrypto = "*"
sgx_tseal = "*"
sgx_rand = "*"
sgx_urts = "*"
lazy_static = "1"
threadpool = "1"
actix-web = "4"
futures = "0.3"
serde = { version = "1", features = ["derive"] }
serde_json = "1"
