[package]
name = "wintun"
version = "0.1.0"
edition = "2021"
publish = false

[dependencies]
log = "0.4"
uuid = { version = "0.8", features = ["v4", "winapi"] }
winapi = { version = "0.3", features = ["errhandlingapi", "libloaderapi", "synchapi", "winbase", "winerror", "ifdef", "minwindef", "guiddef", "basetsd", "ntdef"] }
simple_logger = "1"
