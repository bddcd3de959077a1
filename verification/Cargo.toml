[package]
name = "highlighter"
version = "0.1.0"
edition = "2021"

[dependencies]
nu-ansi-term = "=0.50.3"
