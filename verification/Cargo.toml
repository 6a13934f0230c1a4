[package]
name = "dualslint"
version = "0.1.0"
edition = "2021"
publish = false

[dependencies]
femtovg = "=0.28.0"
glutin = "=0.32.3"
i-slint-core = { version = "=1.18.1", default-features = false, features = ["std", "unicode", "shared-parley", "box-shadow-cache", "raw-window-handle-06"] }
imgref = "=1.12.3"
lyon_path = "=1.0.19"
raw-window-handle = "=0.6.2"
rgb = "=0.8.53"
winit = "=0.30.13"
