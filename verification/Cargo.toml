[package]
name = "c_ast"
version = "0.1.0"
edition = "2021"
publish = false

[dependencies]
anstream = "*"
clap = { version = "*", features = ["derive"] }
color-print = "*"
glob = "*"
log = "*"
which = "*"
