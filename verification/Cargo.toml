[package]
name = "intercom"
version = "0.1.0"
edition = "2021"
publish = false

[dependencies]
alsa = "*"
anyhow = "*"
crossbeam = "*"
crossterm = "*"
evdev = "*"
minimp3 = "*"
ratatui = "*"
