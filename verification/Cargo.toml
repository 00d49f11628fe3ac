[package]
name = "sumcheck_prover"
version = "0.1.0"
edition = "2021"
publish = false

[dependencies]
binius-field = "*"
either = "1"
rayon = "1"
wasm-bindgen = "0.2"
console_error_panic_hook = "0.1"
