[package]
name = "beanie"
version = "0.1.0"
edition = "2021"
publish = false

[dependencies]
mexprp = { version = "=0.3.1", default-features = false }
pgfplots = "=0.5.1"
colored = "=3.1.1"
