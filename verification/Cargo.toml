[package]
name = "applauncher"
version = "0.1.0"
edition = "2021"
publish = false

[dependencies]
convert_case = "0.4"
freedesktop_entry_parser = "1"
shell-words = "1"
