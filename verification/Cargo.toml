[package]
name = "dioxus_std"
version = "0.1.0"
edition = "2021"
publish = false

[dependencies]
dioxus = { version = "=0.6.3", default-features = false, features = ["hooks", "signals"] }
futures = "=0.3.34"
log = "=0.4.34"
serde = { version = "=1.0.229", features = ["derive"] }
serde_json = "=1.0.154"
tokio = { version = "=1.54.1", features = ["time", "sync"] }
unic-langid = { version = "=0.9.6", features = ["serde"] }
uuid = { version = "=1.29.0", features = ["v4"] }
wasm-bindgen = "=0.2.129"
wasm-bindgen-futures = "=0.4.79"
web-sys = { version = "=0.3.106", features = ["Window", "Storage", "StorageEvent", "EventTarget"] }
windows = { version = "=0.58.0", features = ["Devices_Geolocation", "Foundation"] }
