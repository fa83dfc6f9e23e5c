[package]
name = "pulse"
version = "0.1.0"
edition = "2021"
publish = false

[dependencies]
rand = "*"
ulid = "*"
flate2 = "*"
aes-gcm = "*"
rmp-serde = "*"
rmpv = "*"
serde = { version = "*", features = ["derive"] }
chrono = "*"
jsonwebtoken = "*"
str0m = "*"
async-std = { version = "*", features = ["attributes"] }
async-tungstenite = "*"
futures-util = "*"
async-trait = "*"
dashmap = "*"
x25519-dalek = "*"
