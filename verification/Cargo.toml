[package]
name = "levels"
version = "0.1.0"
edition = "2021"
publish = false

[dependencies]
rtrb = "0.2"
cpal = "0.13"
crossbeam-channel = "0.5"
eyre = "0.6"
color-eyre = "0.6"
log = "0.4"
env_logger = "0.9"
