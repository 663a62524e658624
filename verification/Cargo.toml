[package]
name = "define"
version = "0.1.0"
edition = "2021"
publish = false

[dependencies]
awedio = "=0.8.0"
confy = "=2.0.0"
reqwest = { version = "=0.13.5", features = ["blocking", "query"] }
serde = { version = "=1.0.229", features = ["derive"] }
serde_json = "=1.0.154"
substring = "=1.4.5"
tempfile = "=3.27.0"
text-colorizer = "=1.0.0"
