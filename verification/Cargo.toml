[package]
name = "bigsound"
version = "0.7.0"
edition = "2021"
publish = false

[dependencies]
anyhow = "1"
clap = { version = "4", features = ["derive"] }
gettext-rs = "*"
gtk4 = "*"
hound = "3"
libadwaita = { version = "*", features = ["v1_2"] }
regex = "1"
serde = { version = "1", features = ["derive"] }
serde_json = "1"
zbus = "5"
