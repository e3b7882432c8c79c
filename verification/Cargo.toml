[package]
name = "coppas"
version = "0.2.0"
edition = "2021"
publish = false

[dependencies]
clap = "*"
clipboard-master = "*"
clipboard-win = "*"
signal-hook = "*"
