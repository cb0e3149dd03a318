[package]
name = "pdf_lifter"
version = "0.1.0"
edition = "2021"
publish = false

[dependencies]
pdf_parser = "*"
