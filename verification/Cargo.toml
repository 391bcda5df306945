[package]
name = "tztr"
version = "0.2.0"
edition = "2021"
publish = false

[dependencies]
jiff = "0.2"
regex = "1"
regex-syntax = "0.8"
serde_json = "1"
