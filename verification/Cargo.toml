[package]
name = "notepad"
version = "0.1.0"
edition = "2021"
publish = false

[dependencies]
chrono = "*"
leptos = { version = "*", features = ["csr"] }
reactive_stores = "*"
serde = { version = "*", features = ["derive"] }
web-sys = { version = "*", features = ["MouseEvent"] }
log = "*"
console_error_panic_hook = "*"
