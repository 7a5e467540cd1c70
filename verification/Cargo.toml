[package]
name = "sawdisk"
version = "0.1.0"
edition = "2021"
publish = false

[dependencies]
cliclack = "=0.5.6"
color-eyre = "=0.6.5"
console = "=0.16.6"
log = "=0.4.34"
pretty_env_logger = "=0.5.0"
