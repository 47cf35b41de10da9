[package]
name = "subquery"
version = "0.1.0"
edition = "2021"
publish = false

[dependencies]
turso_parser = "0.4"
