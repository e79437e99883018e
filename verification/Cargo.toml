[package]
name = "basecoat"
version = "0.1.0"
edition = "2021"
publish = false

[dependencies]
wasm-bindgen = "0.2"
wasm-bindgen-futures = "0.4"
js-sys = "0.3"
console_error_panic_hook = "0.1"
proc-macro2 = "1"
quote = "1"
syn = "2"

[dependencies.web-sys]
version = "0.3"
features = ["Window", "Document", "Element", "HtmlElement", "HtmlButtonElement", "HtmlInputElement", "HtmlSelectElement", "HtmlDialogElement", "Node", "NodeList", "EventTarget", "Event", "EventInit", "CustomEvent", "CustomEventInit", "KeyboardEvent", "MouseEvent", "FocusEvent", "DomRect", "Storage", "MediaQueryList", "MediaQueryListEvent", "console"]
