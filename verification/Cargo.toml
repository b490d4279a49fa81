[package]
name = "buddy"
version = "0.1.0"
edition = "2021"
publish = false

[dependencies]
actix-files = "*"
actix-web = "*"
console_error_panic_hook = "*"
gloo-net = { version = "*", default-features = false, features = ["http", "json"] }
js-sys = "*"
leptos = { version = "*", features = ["ssr"] }
leptos_actix = "*"
leptos_meta = { version = "*", features = ["ssr"] }
leptos-struct-table = "*"
serde = { version = "*", features = ["derive"] }
serde_json = "*"
wasm-bindgen = "*"
web-sys = { version = "*", features = ["Blob", "BlobPropertyBag", "Document", "Element", "HtmlAnchorElement", "HtmlElement", "Node", "Url", "Window"] }
