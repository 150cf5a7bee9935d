[package]
name = "rebar"
version = "0.1.0"
edition = "2021"
publish = false

[dependencies]
approx = "0.5"
mlua = { version = "0.10", features = ["lua54", "vendored"] }
