[package]
name = "fugue"
version = "0.1.0"
edition = "2021"
publish = false

[dependencies]
arrayvec = "=0.7.8"
fugue-bytes = "=0.2.2"
iset = "*"
roxmltree = "=0.21.2"
thiserror = "=1.0.69"
itertools = "=0.15.0"
