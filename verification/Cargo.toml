[package]
name = "selene_lib"
version = "0.1.0"
edition = "2021"
publish = false

[dependencies]
regex = "*"
full_moon = "*"
serde = { version = "*", features = ["derive"] }
serde_json = "*"
toml = "*"
codespan = "*"
codespan-reporting = "*"
chrono = "*"
num_cpus = "*"
structopt = "*"
