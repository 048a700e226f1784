[package]
name = "protolaunch"
version = "0.1.0"
edition = "2021"
publish = false

[dependencies]
url = "2"
clap = { version = "4", features = ["derive"] }
directories = "*"
flexi_logger = "*"
log = "0.4"
winreg = "*"
