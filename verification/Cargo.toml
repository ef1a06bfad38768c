[package]
name = "svgr2"
version = "0.1.0"
edition = "2021"
publish = false

[dependencies]
oxc_allocator = "=0.143.0"
oxc_ast = "=0.143.0"
oxc_codegen = "=0.143.0"
oxc_parser = "=0.143.0"
oxc_span = "=0.143.0"
oxc_syntax = "=0.143.0"
oxvg_ast = { version = "=0.0.9", features = ["roxmltree"] }
oxvg_optimiser = "=0.0.9"
serde = { version = "=1.0.229", features = ["derive"] }
serde_json = "=1.0.154"
thiserror = "=2.0.21"
