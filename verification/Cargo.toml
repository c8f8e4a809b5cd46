[package]
name = "pua_lang"
version = "0.1.0"
edition = "2021"
publish = false

[dependencies]
unicode-normalization = "0.1"
unicode-xid = "0.2"
rustyline = "*"
rustyline-derive = "*"
