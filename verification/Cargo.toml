[package]
name = "pencast"
version = "0.1.0"
edition = "2021"
publish = false

[dependencies]
jpeg-decoder = "=0.3.2"
pollster = "=1.0.1"
raw-window-handle = "=0.6.2"
wgpu = { version = "=30.0.1", default-features = false, features = ["std", "dx12", "wgsl"] }
windows = { version = "=0.59.0", features = [
    "Win32_Devices_DeviceAndDriverInstallation",
    "Win32_Devices_Usb",
    "Win32_Foundation",
    "Win32_Graphics_Gdi",
    "Win32_Security",
    "Win32_Storage_FileSystem",
    "Win32_System_IO",
    "Win32_System_LibraryLoader",
    "Win32_System_Threading",
    "Win32_UI_Input_KeyboardAndMouse",
    "Win32_UI_WindowsAndMessaging",
] }
