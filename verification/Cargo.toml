[package]
name = "fio_eta_line"
version = "0.1.0"
edition = "2021"
publish = false

[dependencies]
byte-unit = "5"
rust_decimal = "1"
