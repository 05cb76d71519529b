[package]
name = "translatable"
version = "0.1.0"
edition = "2021"
publish = false

[dependencies]
proc-macro2 = "1"
quote = "1"
syn = { version = "2", features = ["full"] }
strum = { version = "0.27", features = ["derive"] }
thiserror = "2"
toml_edit = "0.22"
