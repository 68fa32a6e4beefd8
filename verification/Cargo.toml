[package]
name = "bridge"
version = "0.1.0"
edition = "2021"
publish = false

[dependencies]
rand = "0.8"
wasm-bindgen = "*"
web-sys = { version = "*", features = ["Window", "Document", "Element", "HtmlElement"] }
yew = { version = "*", features = ["csr"] }
yew-router = "*"
