[package]
name = "ez_vend"
version = "0.1.0"
edition = "2021"
publish = false

[dependencies]
urlencoding = "=2.1.3"
uuid = "=1.29.0"
chrono = "0.4"
anyhow = "=1.0.104"
directories = "=6.0.0"
sysinfo = "=0.40.1"
tokio = { version = "=1.54.1", features = ["macros", "rt-multi-thread", "signal", "fs"] }
warp = { version = "=0.4.3", features = ["server"] }
webbrowser = "=1.2.6"
