[package]
name = "ts_native"
version = "0.1.0"
edition = "2021"
publish = false

[dependencies]
anyhow = "1"
serde = { version = "1", features = ["derive"] }
toml = "0.8"
cranelift = "0.95"
cranelift-module = "0.95"
cranelift-native = "0.95"
cranelift-object = "0.95"
swc_common = "*"
swc_ecma_ast = "*"
swc_ecma_parser = "*"
