[package]
name = "nettfiske"
version = "0.1.0"
edition = "2021"
publish = false

[dependencies]
idna = "0.5"
strsim = "0.11"
publicsuffix = "2"
serde = { version = "1", features = ["derive"] }
serde_json = "1"
tungstenite = "0.21"
url = "2"
console = "0.15"
fern = "0.6"
chrono = "0.4"
log = "0.4"
