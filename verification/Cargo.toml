[package]
name = "ytapp"
version = "0.1.0"
edition = "2021"
publish = false

[dependencies]
serde = { version = "*", features = ["derive"] }
serde_json = "*"
tokio = { version = "*", features = ["macros", "rt-multi-thread", "sync", "fs", "io-util", "time"] }
notify = "*"
chrono = "*"
futures = "*"
anyhow = "*"
async-trait = "*"
chacha20poly1305 = { version = "*", features = ["std"] }
rand_core = "*"
mime_guess = "*"
google-youtube3 = "*"
yup-oauth2 = "*"
