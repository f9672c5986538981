[package]
name = "panel_adapter"
version = "0.1.0"
edition = "2021"
publish = false

[dependencies]
gt911 = "*"
log = "*"
