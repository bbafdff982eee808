[package]
name = "mol_swatter"
version = "0.1.0"
edition = "2021"
publish = false

[dependencies]
nom = "7"
pyo3 = "0.20"
