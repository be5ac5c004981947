[package]
name = "dice_sim"
version = "0.1.0"
edition = "2021"
publish = false

[dependencies]
rand = "0.8"
chrono = "0.4"
clap = "4"
ctrlc = "3"
tracing = "0.1"
tracing-subscriber = "0.3"
