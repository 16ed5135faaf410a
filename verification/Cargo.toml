[package]
name = "pcie_mem_test"
version = "0.1.0"
edition = "2021"
publish = false

[dependencies]
memmap2 = "0.9"

[dev-dependencies]
tempfile = "3"
