[package]
name = "pairing_ibe"
version = "0.1.0"
edition = "2021"
publish = false

[dependencies]
miracl_core = { version = "=2.7.0", features = ["bn254"] }
sha2 = "=0.10.9"
getrandom = "=0.2.17"
rand = "=0.8.8"
wasm-bindgen = "=0.2.129"
js-sys = "=0.3.106"
console_error_panic_hook = "=0.1.7"
falcon-rust = "*"
pqcrypto-std = "*"
pqcrypto-falcon-wasi = "*"
pqcrypto-traits-wasi = "*"
