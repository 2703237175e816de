[package]
name = "changed_files"
version = "0.1.0"
edition = "2021"
publish = false

[dependencies]
regex = "1"
clap = "4"
subprocess = "0.2"
