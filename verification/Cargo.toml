[package]
name = "horriplayer"
version = "0.1.0"
edition = "2021"
publish = false

[dependencies]
rtrb = "0.3"
cpal = "0.17"
realfft = "3"
rubato = "0.16"
symphonia = { version = "0.5", features = ["all"] }
reqwest = { version = "0.12", default-features = false, features = ["blocking", "rustls-tls"] }
serde = { version = "1", features = ["derive"] }
log = "0.4"
