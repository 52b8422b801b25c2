[package]
name = "netbeam"
version = "0.1.0"
edition = "2021"
publish = false

[dependencies]
rand = "*"
hostname = "*"
network-interface = "*"
local-ip-address = "*"
crossterm = "*"
