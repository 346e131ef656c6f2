[package]
name = "hm3_sandbox"
version = "0.1.0"
edition = "2021"
publish = false

[dependencies]
anyhow = "=1.0.104"
detour = { version = "=0.8.1", default-features = false }
lazy_static = "=1.5.1"
parking_lot = "=0.12.5"
patternscan = "=1.2.0"
windows = { version = "0.58", features = ["Win32_Foundation", "Win32_System_Diagnostics_ToolHelp", "Win32_System_LibraryLoader", "Win32_System_ProcessStatus", "Win32_System_Threading"] }
