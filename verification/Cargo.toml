[package]
name = "cita_gossip"
version = "0.1.0"
edition = "2021"
publish = false

[dependencies]
rand = "=0.7.3"
serde = { version = "=1.0.229", features = ["derive"] }
serde_json = "=1.0.154"
rustls = "=0.16.0"
webpki = "=0.21.4"
webpki-roots = "=0.18.0"
ct-logs = "=0.6.0"
mio = "=0.6.23"
vecio = "=0.1.0"
docopt = "1"
libmdns = "*"
