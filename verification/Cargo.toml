[package]
name = "history_lookup"
version = "0.1.0"
edition = "2021"
publish = false

[dependencies]
chrono = "*"
console_error_panic_hook = "*"
js-sys = "*"
percent-encoding = "*"
wasm-bindgen = "*"
web-extensions = "*"
web-sys = { version = "*", features = ["console"] }
