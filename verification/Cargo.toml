[package]
name = "mov-cli-rs"
version = "0.1.0"
edition = "2021"
publish = false

[dependencies]
clap = { version = "4", features = ["derive"] }
fzf-wrapped = "*"
reqwest = { version = "0.12", default-features = false, features = ["blocking", "json", "cookies", "rustls-tls"] }
serde = { version = "1", features = ["derive"] }
termsize = "0.1"
text_io = "0.1"
