[package]
name = "ramtester"
version = "0.1.0"
edition = "2021"
publish = false

[dependencies]
libc = "=0.2.191"
rand = "=0.8.8"
winapi = { version = "=0.3.9", features = ["consoleapi", "sysinfoapi", "wincon"] }
