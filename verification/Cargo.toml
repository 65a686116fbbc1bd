[package]
name = "postings_ledger"
version = "0.1.0"
edition = "2021"
publish = false

[dependencies]
chrono = "*"
serde = { version = "*", features = ["derive"] }
rust_decimal = { version = "*", features = ["db-diesel2-postgres"] }
diesel = { version = "*", features = ["postgres", "chrono"] }
diesel-derive-enum = { version = "*", features = ["postgres"] }
