[package]
name = "sixel_playground"
version = "0.1.0"
edition = "2021"
publish = false

[dependencies]
icy_sixel = "=0.7.0"
image = { version = "=0.25.10", default-features = false }
hound = "=3.5.1"
plotters = { version = "=0.3.7", default-features = false, features = ["bitmap_backend", "line_series"] }
ratatui = "=0.30.2"
ratatui-image = { version = "=11.1.0", default-features = false, features = ["crossterm"] }
crossterm = "=0.29.0"
