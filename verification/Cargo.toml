[package]
name = "pane_grid"
version = "0.1.0"
edition = "2021"
publish = false

[dependencies]
iced_core = "=0.5.0"
iced_futures = "=0.4.1"
iced_style = "=0.4.0"
