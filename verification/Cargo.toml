[package]
name = "rusty_address_book"
version = "0.1.0"
edition = "2021"
publish = false

[dependencies]
clap = { version = "4", features = ["derive"] }
crossterm = "0.26"
ctrlc = "3"
directories = "5"
serde = { version = "1", features = ["derive"] }
serde_json = "1"
