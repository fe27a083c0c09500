[package]
name = "pmbus_codegen"
version = "0.1.0"
edition = "2021"
publish = false

[dependencies]
heck = "*"
embedded-hal = "*"
embedded-hal-async = "*"
