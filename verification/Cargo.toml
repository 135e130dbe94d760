[package]
name = "mospeada"
version = "0.1.0"
edition = "2021"
publish = false

[dependencies]
candle-core = "=0.11.0"
candle-nn = "=0.11.0"
candle-transformers = "=0.11.0"
serde = { version = "=1.0.229", features = ["derive"] }
serde_json = "=1.0.151"
minijinja = "=2.24.0"
minijinja-contrib = { version = "=2.24.0", features = ["pycompat"] }
thiserror = "=1.0.69"
bytemuck = "=1.25.2"
num-traits = "=0.2.19"
tokenizers = "=0.22.2"
