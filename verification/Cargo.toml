[package]
name = "tictactoe"
version = "0.1.0"
edition = "2021"
publish = false

[dependencies]
yew = "0.18"
wasm-bindgen = "0.2"
js-sys = "0.3"
web-sys = { version = "0.3", features = ["console", "Window", "Document", "Element", "Node", "EventTarget", "Event", "HtmlElement", "HtmlAnchorElement", "DomTokenList", "CssStyleDeclaration", "MouseEvent", "KeyboardEvent", "UiEvent", "Exception"] }
