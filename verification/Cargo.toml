[package]
name = "font_embed"
version = "0.1.0"
edition = "2021"
publish = false

[dependencies]
base64 = "0.22"
file-format = "*"
short-uuid = "*"
thiserror = "*"
leptos = "0.6"
