[package]
name = "query_facade"
version = "0.1.0"
edition = "2021"
publish = false

[dependencies]
chrono = "0.4"
diesel = { version = "1.4", features = ["mysql", "chrono"] }
dotenv = "0.15"
serde = "1"
serde_derive = "1"
serde_json = "1"
