[package]
name = "tiny_tot_vm"
version = "0.1.0"
edition = "2021"
publish = false

[dependencies]
crossbeam = "*"
crossbeam-deque = "*"
colored = "*"
comfy-table = "*"
