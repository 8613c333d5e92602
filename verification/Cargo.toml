[package]
name = "cepack"
version = "0.1.0"
edition = "2021"
publish = false

[dependencies]
inflate = "=0.4.5"
pelite = "=0.10.0"
quick-error = "=1.2.3"
