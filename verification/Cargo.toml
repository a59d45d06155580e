[package]
name = "capture_engine"
version = "0.1.0"
edition = "2021"
publish = false

[dependencies]
crossbeam-queue = "=0.3.14"
image = "=0.25.10"
headless_chrome = "=0.9.0"
walkdir = "=2.5.0"
rayon = "=1.12.0"
rcms = "=0.1.0"
