[package]
name = "unipac"
version = "0.1.0"
edition = "2021"
publish = false

[dependencies]
alpm = "*"
alpm-utils = "*"
clap = { version = "4", features = ["derive"] }
console = "*"
dialoguer = "*"
dirs = "*"
flate2 = "1"
glob-match = "0.2"
indicatif = "*"
libc = "0.2"
once_cell = "1"
pacmanconf = "*"
raur = "7"
regex = "1"
reqwest = { version = "0.12", default-features = false, features = ["json", "rustls-tls"] }
semver = "1"
serde = { version = "1", features = ["derive"] }
serde_json = "1"
tabwriter = "1"
tar = "0.4"
tempfile = "3"
tokio = { version = "1", features = ["full"] }
xdg = "2"
