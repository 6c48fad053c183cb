[package]
name = "rufus"
version = "0.1.0"
edition = "2021"
publish = false

[dependencies]
regex = "1"
lsp-types = "*"
lsp-server = "*"
serde = { version = "1", features = ["derive"] }
serde_json = "1"
serde_yaml = "*"
rustyline = "*"
log = "0.4"
flexi_logger = "*"
wasm-bindgen = "*"
lalrpop-util = "*"
