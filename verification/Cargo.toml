[package]
name = "simplicityhl"
version = "0.1.0"
edition = "2021"
publish = false

[dependencies]
simplicity-lang = "=0.9.0"
chumsky = "=0.13.0"
miniscript = "=13.2.0"
arbitrary = "=1.5.0"
