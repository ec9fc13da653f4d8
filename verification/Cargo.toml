[package]
name = "ui_test_core"
version = "0.1.0"
edition = "2021"
publish = false

[dependencies]
regex = "*"
