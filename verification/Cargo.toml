[package]
name = "rust_wow"
version = "0.1.0"
edition = "2021"
publish = false

[dependencies]
dynasmrt = "=2.0.0"
eframe = { version = "=0.23.0", default-features = false, features = ["glow"] }
egui = { version = "=0.23.0", default-features = false }
egui_extras = { version = "=0.23.0", default-features = false }
windows = { version = "=0.51.1", features = ["Win32_Foundation", "Win32_Security", "Win32_System_Diagnostics_Debug", "Win32_System_Diagnostics_ToolHelp", "Win32_System_Kernel", "Win32_System_Memory", "Win32_System_Threading", "Win32_Graphics_Gdi", "Win32_Graphics_Direct3D9", "Win32_UI_WindowsAndMessaging", "Win32_Data_Xml_XmlLite", "Win32_System_Com", "Win32_System_Com_StructuredStorage", "Win32_UI_Shell"] }
