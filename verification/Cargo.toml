[package]
name = "crabapi"
version = "0.1.0"
edition = "2021"
publish = false

[dependencies]
clap = "=4.6.7"
const_format = "=0.2.37"
http = "=1.5.0"
iced = { version = "=0.13.1", default-features = false }
iced_highlighter = "=0.13.0"
reqwest = { version = "=0.12.28", default-features = false }
rfd = { version = "=0.15.4", default-features = false, features = ["xdg-portal", "tokio"] }
tokio = { version = "=1.54.1", features = ["rt-multi-thread", "macros", "fs"] }
url = "=2.5.8"
