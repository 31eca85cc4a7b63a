[package]
name = "rise_of_the_frogs"
version = "0.1.0"
edition = "2021"
publish = false

[dependencies]
rand = "0.8"
