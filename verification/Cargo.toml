[package]
name = "toll_plaza"
version = "0.1.0"
edition = "2021"
publish = false

[dependencies]
lazy_static = "1.4"
rand = "0.8"
rand_distr = "0.4"
sqlite = "*"
winapi = { version = "0.3", features = ["consoleapi", "minwindef", "processenv", "winbase", "wincon"] }
