[package]
name = "excel_reader"
version = "0.1.0"
edition = "2021"
publish = false

[dependencies]
calamine = "=0.36.1"
rayon = "=1.12.0"

[dev-dependencies]
rust_xlsxwriter = "=0.99.1"
zip = "*"
tempfile = "*"
