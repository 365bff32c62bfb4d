[package]
name = "sc4_setup"
version = "0.1.0"
edition = "2021"
publish = false

[dependencies]
console_error_panic_hook = "*"
dominator = "*"
futures-signals = "*"
gloo = { version = "*", features = ["console", "file"] }
js-sys = "*"
wasm-bindgen = "*"
wasm-bindgen-futures = "*"
web-sys = { version = "*", features = ["Blob", "File", "FileList", "FileSystemDirectoryHandle", "FileSystemHandle", "HtmlInputElement", "Url", "console"] }
