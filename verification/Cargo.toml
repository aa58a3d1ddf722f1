[package]
name = "snake_game"
version = "0.1.0"
edition = "2021"
publish = false

[dependencies]
gloo = "0.4"
web-sys = { version = "0.3", features = ["HtmlDivElement", "KeyboardEvent"] }
yew = "0.19"
