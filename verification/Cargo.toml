[package]
name = "source_servers_list"
version = "0.1.0"
edition = "2021"
publish = false

[dependencies]
byteorder = "=1.5.0"
serde = { version = "=1.0.229", features = ["derive"] }
serde_json = "=1.0.154"
serde_yaml = "=0.9.34"
rocket = "=0.5.2"
rocket_ws = "=0.1.1"
dotenvy = "=0.15.7"
mime_guess = "=2.0.5"
lazy_static = "=1.5.1"
tokio = { version = "1", features = ["sync", "macros"] }
futures-util = { version = "0.3", features = ["sink"] }
wasm-bindgen = "*"
wasm-bindgen-futures = "*"
web-sys = { version = "*", features = ["Window", "Document", "Element", "HtmlElement", "DomTokenList", "Notification", "NotificationOptions", "Location", "CssStyleDeclaration", "Node"] }
gloo = "*"
gloo-console = "*"
tokio-tungstenite-wasm = "*"
console_error_panic_hook = "*"
