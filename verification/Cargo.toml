[package]
name = "idle_fighter"
version = "0.1.0"
edition = "2021"
publish = false

[dependencies]
num = "0.4"
rand = "*"
jiff = "*"
regex = "1"
titlecase = "*"
thousands = "0.2"
toml = "*"
serde = { version = "1", features = ["derive"] }
dioxus = { version = "0.7", default-features = false, features = ["macro", "html", "signals", "hooks", "launch"] }
dioxus-stores = "0.7"
dioxus-sdk = { version = "0.7", default-features = false, features = ["time"] }
