[package]
name = "ipgeo"
version = "0.1.0"
edition = "2021"
publish = false

[dependencies]
actix-web = "*"
bytes = "*"
maxminddb = "*"
num_cpus = "*"
