[package]
name = "whalespotter"
version = "0.1.0"
edition = "2021"
publish = false

[dependencies]
crossbeam = "=0.7.3"
crossterm = "=0.17.7"
lazy_static = "=1.5.1"
open = "=1.7.1"
termimad = "=0.8.30"
