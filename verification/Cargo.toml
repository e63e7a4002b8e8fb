[package]
name = "egui_term"
version = "0.1.0"
edition = "2021"
publish = false

[dependencies]
alacritty_terminal = "0.25"
egui = "0.33"
open = "5"
polling = "3"
