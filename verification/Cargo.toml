[package]
name = "rs_dfu"
version = "0.1.0"
edition = "2021"
publish = false

[dependencies]
parse-size = "=1.1.0"
log = "=0.4.35"
env_logger = "=0.11.11"
clap = { version = "=4.6.7", features = ["derive"] }
clap-num = "=1.2.0"
cxx = "=1.0.205"
