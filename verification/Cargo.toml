[package]
name = "neocal"
version = "0.1.0"
edition = "2021"
publish = false

[dependencies]
chrono = "*"
url = "*"
term_size = "*"
term-table = "*"
clap = { version = "*", features = ["derive"] }
configparser = "*"
home = "*"
reqwest = { version = "*", default-features = false, features = ["json"] }
serde = { version = "*", features = ["derive"] }
serde_json = "*"
tokio = { version = "*", features = ["macros", "rt-multi-thread"] }
