[package]
name = "inr"
version = "0.1.0"
edition = "2021"
publish = false

[dependencies]
aes-gcm = "*"
anyhow = "1"
arboard = { version = "3", default-features = false }
argon2 = "0.5"
chrono = "0.4"
clap = { version = "4", features = ["derive"] }
crossterm = "0.29"
directories = "*"
getrandom = "*"
inquire = "0.9"
nanoid = "*"
rusqlite = { version = "*", features = ["bundled"] }
serde = { version = "1", features = ["derive"] }
serde_json = "1"
shell-words = "1"
zeroize = "1"
