[package]
name = "csv_relay"
version = "0.1.0"
edition = "2021"
publish = false

[dependencies]
chrono = "0.4"
dotenv = "0.15"
log = "0.4"
notify = "6"
simple_logger = "4"
