[package]
name = "market"
version = "0.1.0"
edition = "2021"
publish = false

[dependencies]
compact = "=0.2.16"
compact_macros = "=0.1.0"
kay = "=0.5.1"
