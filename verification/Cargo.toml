[package]
name = "neonfetch"
version = "0.1.0"
edition = "2021"
publish = false

[dependencies]
fastrand = "2"
crossterm = "*"
sysinfo = "*"
get_if_addrs = "*"
