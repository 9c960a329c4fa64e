[package]
name = "chunkdl"
version = "0.1.0"
edition = "2021"
publish = false

[dependencies]
base64 = "=0.23.1"
crossbeam = "=0.8.5"
encoding_rs = "=0.8.42"
memmap2 = "=0.9.11"
once_cell = "=1.21.4"
openssl = "=0.10.81"
percent-encoding = "=2.3.2"
rayon = "=1.12.0"
reqwest = { version = "=0.13.5", default-features = false, features = ["blocking", "form", "json", "native-tls"] }
serde = "=1.0.229"
