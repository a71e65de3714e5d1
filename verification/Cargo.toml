[package]
name = "yotsuba"
version = "0.1.0"
edition = "2021"
publish = false

[dependencies]
base64 = "0.22"
data-encoding = "2"
hex = "0.4"
urlencoding = "2"
md-5 = "0.10"
sha1 = "0.10"
sha2 = "0.10"
chrono = { version = "0.4", default-features = false, features = ["clock", "std"] }
twilight-model = "0.16"
reqwest = { version = "0.12", default-features = false, features = ["json"] }
tokio = { version = "1", features = ["time"] }
serde_json = "1"
