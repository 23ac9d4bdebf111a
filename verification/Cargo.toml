[package]
name = "ed_debby"
version = "0.1.0"
edition = "2021"
publish = false

[dependencies]
rustyline = "*"
pico-args = "*"
