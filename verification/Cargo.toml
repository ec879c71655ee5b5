[package]
name = "spidap"
version = "0.1.0"
edition = "2021"
publish = false

[dependencies]
anyhow = "=1.0.104"
clap = "=2.34.0"
jtagdap = "=0.1.1"
log = "=0.4.34"
pretty_env_logger = "=0.4.0"
spi-flash = "=0.2.2"
thiserror = "=1.0.69"
