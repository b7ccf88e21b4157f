[package]
name = "sol"
version = "1.2.0"
edition = "2021"
publish = false

[dependencies]
rand = "0.8"
rquickjs = { version = "0.1", features = ["macro", "loader"] }
rustyline = "9"
structopt = "0.3"
uuid = { version = "0.8", features = ["v4"] }
