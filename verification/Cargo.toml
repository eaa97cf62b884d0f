[package]
name = "hyprwall"
version = "0.1.0"
edition = "2021"
publish = false

[dependencies]
crossbeam-channel = "0.5"
gtk4 = "0.9"
num_cpus = "1"
parking_lot = "0.12"
rand = "0.8"
rayon = "1"
shellexpand = "3"
