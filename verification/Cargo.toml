[package]
name = "use_animate"
version = "0.1.0"
edition = "2021"
publish = false

[dependencies]
dioxus = { version = "=0.7.10", features = ["web"] }
js-sys = "=0.3.106"
wasm-bindgen-futures = "=0.4.79"
web-sys = { version = "=0.3.106", features = ["DomTokenList", "Element", "Window"] }
