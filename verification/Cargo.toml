[package]
name = "spellbound"
version = "0.1.0"
edition = "2021"
publish = false

[dependencies]
cfg-if = "1"
lazy_static = "1"
hunspell-sys = "*"
cocoa = "*"
winapi = { version = "0.3", features = ["combaseapi", "objbase", "spellcheck", "unknwnbase", "winerror", "wtypesbase"] }
