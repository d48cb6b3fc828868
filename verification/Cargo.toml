[package]
name = "visits"
version = "0.1.0"
edition = "2021"
publish = false

[dependencies]
chrono = "0.4"
diesel = { version = "1.4", features = ["postgres", "chrono", "r2d2"] }
dotenv = "0.15"
prettytable-rs = "0.8"
structopt = "0.2"
