[package]
name = "regular_table"
version = "0.1.0"
edition = "2021"
publish = false

[dependencies]
wasm-bindgen = "0.2"
wasm-bindgen-futures = "0.4"
js-sys = "0.3"
js-intern = "*"
console_error_panic_hook = "0.1"
web-sys = { version = "0.3", features = ["Window", "Document", "DocumentFragment", "Element", "HtmlElement", "HtmlCollection", "Node", "Event", "UiEvent", "MouseEvent", "WheelEvent", "TouchEvent", "TouchList", "Touch", "CssStyleDeclaration", "DomTokenList"] }
