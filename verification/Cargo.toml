[package]
name = "imessage-database"
version = "0.1.0"
edition = "2021"
publish = false

[dependencies]
protobuf = "3"
lzma-rs = "0.3"
clap = "3"
filetime = "0.2"
rusqlite = "*"
