[package]
name = "chat_layout"
version = "0.1.0"
edition = "2021"
publish = false

[dependencies]
unicode-width = "0.1"
textwrap = "0.11"
chrono = "0.4"
tui = "0.19"
