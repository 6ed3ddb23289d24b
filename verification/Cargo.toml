[package]
name = "minesweeper"
version = "0.1.0"
edition = "2021"
publish = false

[dependencies]
rand = "0.8"
uuid = { version = "1", features = ["v4"] }
leptos = { version = "0.4", features = ["csr"] }
gloo-timers = { version = "0.2", features = ["futures"] }
