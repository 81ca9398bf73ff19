[package]
name = "gaji"
version = "0.1.0"
edition = "2021"
publish = false

[dependencies]
anyhow = "1"
oxc_allocator = "0.115"
oxc_codegen = "0.115"
oxc_parser = "0.115"
oxc_semantic = "0.115"
oxc_span = "0.115"
oxc_transformer = "0.115"
rquickjs = { version = "0.11", features = ["loader"] }

[dev-dependencies]
serde_json = "1"
