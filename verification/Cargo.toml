[package]
name = "emacs_remote"
version = "0.1.0"
edition = "2021"
publish = false

[dependencies]
rmp = "*"
rmp-serde = "*"
rmpv = "*"
serde = "*"
clap = { version = "*", features = ["derive"] }
dirs = "*"
flate2 = "*"
ssh2 = "*"
whoami = "*"
