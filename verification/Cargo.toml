[package]
name = "awawausb"
version = "0.1.0"
edition = "2021"
publish = false

[dependencies]
base64 = "0.22"
serde = { version = "1", features = ["derive"] }
serde_json = "1"
log = "0.4"
stderrlog = "0.6"
libc = "0.2"
pin-init = "*"
core-foundation = "*"
kqueue-sys = "*"
windows-sys = { version = "*", features = ["Win32_Foundation", "Win32_Devices_Usb", "Win32_Devices_DeviceAndDriverInstallation", "Win32_Devices_Properties", "Win32_Storage_FileSystem", "Win32_System_IO", "Win32_System_Threading", "Win32_System_Console", "Win32_System_Registry"] }
windows-strings = "*"
utf16_lit = "*"
