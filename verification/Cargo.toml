[package]
name = "kicad_schema_parser"
version = "0.1.0"
edition = "2021"
publish = false

[dependencies]
chrono = { version = "0.4", default-features = false, features = ["std"] }
lalrpop-util = { version = "*", default-features = false }
