[package]
name = "rlgym_rust"
version = "0.1.0"
edition = "2021"
publish = false

[dependencies]
rand = "0.8"
crossbeam-channel = "0.5"
serde_json = "1"
zip = { version = "0.6", default-features = false, features = ["deflate"] }
subprocess = "0.2"
glob = "0.3"
regex = "1"
sysinfo = "0.29"
webbrowser = "0.8"
winreg = "0.50"
fs2 = "0.4"
itertools = "0.10"
ndarray = "0.15"
numpy = "0.18"
pyo3 = "0.18"
windows = { version = "0.48", features = ["Win32_Foundation", "Win32_Storage_FileSystem", "Win32_System_Pipes", "Win32_System_IO", "Win32_Security", "Win32_UI_WindowsAndMessaging"] }
