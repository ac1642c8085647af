[package]
name = "plc_usi"
version = "0.1.0"
edition = "2021"
publish = false

[dependencies]
flume = "*"
log = "*"
