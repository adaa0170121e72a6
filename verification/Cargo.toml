[package]
name = "avro_schema_core"
version = "0.1.0"
edition = "2021"
publish = false

[dependencies]
syn = "=3.0.6"
darling = "=0.24.1"
