[package]
name = "course_parser"
version = "0.1.0"
edition = "2021"
publish = false

[dependencies]
yaml-rust = "0.4"
pulldown-cmark = "*"
clap = "4"
askama = "0.12"
actix-web = { version = "4", default-features = false, features = ["macros"] }
actix-files = "0.6"
