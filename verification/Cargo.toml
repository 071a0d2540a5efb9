[package]
name = "ftp_server"
version = "0.1.0"
edition = "2021"

[dependencies]
mini = "*"
time = "0.1"
