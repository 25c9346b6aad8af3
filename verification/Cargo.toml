[package]
name = "alma"
version = "0.1.0"
edition = "2021"
publish = false

[dependencies]
anyhow = "*"
byte-unit = "*"
bytes = "*"
clap = { version = "*", features = ["derive"] }
console = "*"
dialoguer = "*"
either = "*"
flate2 = "*"
fs_extra = "*"
git2 = { version = "*", default-features = false }
log = "*"
nix = "0.26"
pretty_env_logger = "*"
reqwest = { version = "*", default-features = false, features = ["blocking"] }
serde = { version = "*", features = ["derive"] }
serde_json = "*"
strum = { version = "*", features = ["derive"] }
tar = "*"
tempfile = "*"
toml = "*"
url = "*"
which = "*"
whoami = "*"
zip = { version = "*", default-features = false, features = ["deflate"] }
