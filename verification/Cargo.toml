[package]
name = "mpi104"
version = "0.1.0"
edition = "2021"
publish = false

[dependencies]
avr-device = { version = "*", features = ["at90can128"] }
embedded-hal = "1.0.0"
embedded-io = "0.6.1"
embedded-io-async = "0.6.1"
