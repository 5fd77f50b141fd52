[package]
name = "parse_session"
version = "0.1.0"
edition = "2021"
publish = false

[dependencies]
anyhow = "1"
compiler_base_error = "*"
compiler_base_macros = "*"
compiler_base_session = "*"
compiler_base_span = "*"
indexmap = "1"
serde_json = "1"
