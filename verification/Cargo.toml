[package]
name = "asm_lsp"
version = "0.1.0"
edition = "2021"
publish = false

[dependencies]
anyhow = "1"
flexi_logger = "*"
log = "0.4"
lsp-server = "*"
lsp-types = "*"
serde = "1"
serde_json = "1"
