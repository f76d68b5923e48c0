[package]
name = "r_uwp"
version = "0.1.0"
edition = "2021"
publish = false

[dependencies]
actix = "0.13"
actix-web = "4"
actix-web-actors = "4"
bytestring = "1"
clap = { version = "4", features = ["derive"] }
clipboard-win = "4"
env_logger = "0.10"
inputbot = "*"
log = "0.4"
strum = { version = "0.25", features = ["derive"] }
sysinfo = "0.29"
winsafe = { version = "*", features = ["user"] }
