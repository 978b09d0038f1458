[package]
name = "worker_supervisor"
version = "0.1.0"
edition = "2021"
publish = false

[dependencies]
libc = "0.2"
windows-sys = { version = "=0.61.2", features = ["Win32_Foundation", "Win32_System_Console", "Win32_System_JobObjects"] }
