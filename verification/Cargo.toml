[package]
name = "aiff"
version = "0.1.0"
edition = "2021"

[dependencies]
id3 = "*"
seek_bufread = "*"
