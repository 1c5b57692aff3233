[package]
name = "helpdesk_export"
version = "0.1.0"
edition = "2021"
publish = false

[dependencies]
base64 = "0.13"
json = "0.12"
toml = "0.5"
ureq = "2"
