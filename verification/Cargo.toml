[package]
name = "weecord"
version = "0.1.0"
edition = "2021"
publish = false

[dependencies]
crossbeam-channel = "=0.5.17"
indexmap = "=1.9.3"
json = "=0.12.4"
parking_lot = "=0.11.2"
serenity = "=0.8.9"
weechat = "=0.4.0"
