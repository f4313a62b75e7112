[package]
name = "stylizer"
version = "0.1.0"
edition = "2021"
publish = false

[dependencies]
wasm-bindgen = "0.2"
wasm-bindgen-futures = "0.4"
js-sys = "0.3"
web-sys = { version = "0.3", features = ["Window", "Document", "Element", "HtmlElement", "HtmlCanvasElement", "CanvasRenderingContext2d", "ImageData", "Blob", "Url", "Navigator", "Request", "RequestInit", "RequestMode", "Response", "console"] }
serde = { version = "1", features = ["derive"] }
serde_json = "1"
serde-wasm-bindgen = "*"
thiserror = "*"
once_cell = "1"
console_error_panic_hook = "0.1"
ndarray = "*"
wonnx = "*"
wee_alloc = "0.4"
ort = { version = "2.0.0-rc.15", default-features = false, features = ["load-dynamic", "ndarray"] }
