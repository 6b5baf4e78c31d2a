[package]
name = "sway_tools"
version = "0.1.0"
edition = "2021"
publish = false

[dependencies]
clap = "2"
crossbeam = "0.7"
env_logger = "0.6"
failure = "0.1"
image = "0.21"
log = "0.4"
rand = "0.6"
rayon = "1"
serde_json = "1"
structopt = "0.2"
