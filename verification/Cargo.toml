[package]
name = "mixlab_workspace"
version = "0.1.0"
edition = "2021"
publish = false

[dependencies]
yew = { version = "0.14", features = ["web_sys"] }
wasm-bindgen = "0.2"
web-sys = { version = "0.3", features = ["CanvasRenderingContext2d", "CssStyleDeclaration", "Element", "Event", "HtmlCanvasElement", "HtmlElement", "MouseEvent", "Node"] }
