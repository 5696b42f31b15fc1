[package]
name = "bnvr"
version = "0.1.0"
edition = "2021"
publish = false

[dependencies]
dirs = "5"
ipnetwork = "0.20"
clap = { version = "4", features = ["derive"] }
tokio = { version = "1", features = ["rt-multi-thread", "macros", "process", "sync", "time", "signal", "io-util", "net"] }
serde = { version = "1", features = ["derive"] }
serde_json = "1"
serde_yaml = "0.9"
reqwest = { version = "0.12", default-features = false, features = ["json", "rustls-tls"] }
interprocess = { version = "2", features = ["tokio"] }
crossterm = "0.28"
ratatui = "0.29"
rusqlite = { version = "0.32", features = ["bundled"] }
tracing = "0.1"
tracing-subscriber = { version = "0.3", features = ["env-filter"] }
tracing-appender = "0.2"
flate2 = "1"
zip = { version = "2", default-features = false, features = ["deflate"] }
libc = "0.2"
caps = "0.5"
tun2 = "*"
windows-sys = { version = "0.59", features = ["Win32_Foundation", "Win32_System_Threading", "Win32_System_Diagnostics_ToolHelp", "Win32_UI_Shell"] }
