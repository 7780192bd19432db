[package]
name = "mozcomp"
version = "0.1.0"
edition = "2021"
publish = false

[dependencies]
regex = "=1.13.1"
pathdiff = "=0.2.3"
petgraph = "=0.8.3"
lightningcss = { version = "=1.0.0-alpha.72", default-features = false, features = ["visitor"] }
oxc = { version = "=0.141.0", features = ["semantic", "codegen", "ast_visit"] }
oxc_codegen = "=0.141.0"
oxc_traverse = "=0.141.0"
glob = "=0.3.4"
clap = { version = "=4.6.7", features = ["derive"] }
serde = { version = "=1.0.229", features = ["derive"] }
toml = "=0.9.12"
thiserror = "=2.0.21"
