[package]
name = "zecwallet-cli"
version = "0.1.0"
edition = "2021"
publish = false

[dependencies]
base64 = "0.13"
json = "0.12"
dirs = "5"
clap = "2"
log = "0.4"
