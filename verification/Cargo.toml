[package]
name = "file_compare"
version = "0.1.0"
edition = "2021"
publish = false

[dependencies]
chardetng = "=0.1.17"
chrono = "=0.4.45"
encoding_rs = "=0.8.42"
sheets-diff = "1.2.0"
