[package]
name = "cpu_render"
version = "0.1.0"
edition = "2021"
publish = false

[dependencies]
log = "0.4"
nalgebra-glm = "*"
rgb = "0.8"
wasm-bindgen = "0.2"
wasm-logger = "*"
web-sys = { version = "0.3", features = ["CanvasRenderingContext2d", "Document", "Element", "HtmlCanvasElement", "HtmlImageElement", "ImageData", "Performance", "Window"] }
yew = { version = "*", features = ["csr"] }
