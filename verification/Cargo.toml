[package]
name = "oaf"
version = "0.1.0"
edition = "2021"
publish = false

[dependencies]
base64 = "*"
directories = "*"
log = "*"

[dependencies.git2]
version = "*"
default-features = false
