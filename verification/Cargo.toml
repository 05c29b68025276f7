[package]
name = "xlsx_table"
version = "0.1.0"
edition = "2021"
publish = false

[dependencies]
umya-spreadsheet = "=2.3.3"
getrandom = { version = "=0.2.17", features = ["custom"] }
wasm-minimal-protocol = "=0.2.1"

[dev-dependencies]
toml = "=1.1.7"
