[package]
name = "klok"
version = "0.1.0"
edition = "2021"
publish = false

[dependencies]
regex = "1"
serde = { version = "1", features = ["derive"] }
serde_json = "1"
serde_repr = "0.1"
chrono = "0.4"
embedded-graphics = "0.6"
embedded-graphics-simulator = "0.2"
heapless = "0.5"
plotters = { version = "0.3", default-features = false, features = ["bitmap_backend", "bitmap_encoder", "line_series"] }
