[package]
name = "nrf_secure"
version = "0.1.0"
edition = "2021"
publish = false

[dependencies]
cortex-m = "0.7"
cortex-m-rt = "0.7"
defmt = "*"
defmt-rtt = "*"
nrf9160-hal = "*"
