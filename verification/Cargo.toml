[package]
name = "mime"
version = "0.4.0"
edition = "2021"
publish = false

[dependencies]
quoted-string = "0.2.2"
serde = "1"
proc-macro2 = "1"
quote = "1"
syn = "1"
