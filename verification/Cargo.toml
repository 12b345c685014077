[package]
name = "terrible_quote_bot"
version = "0.1.0"
edition = "2021"
publish = false

[dependencies]
rand = "0.7"
postgres = "0.17"
serenity = "0.8"
