[package]
name = "dioxus_openapi"
version = "0.1.0"
edition = "2021"
publish = false

[dependencies]
utoipa = "5"
inventory = "0.3"
syn = { version = "2", features = ["full"] }
quote = "1"
proc-macro2 = "1"
