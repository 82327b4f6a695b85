[package]
name = "paper_cli"
version = "0.1.0"
edition = "2021"
publish = false

[dependencies]
clap = { version = "4", features = ["derive"] }
crossterm = "*"
kwik = "*"
paper-client = "*"
parse-size = "*"
thiserror = "*"
tokio = { version = "1", features = ["net", "io-util", "rt"] }

[dev-dependencies]
regex = "1"
