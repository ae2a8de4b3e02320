[package]
name = "blxlib"
version = "0.1.0"
edition = "2021"
publish = false

[dependencies]
regex = "1"
getopts = "0.2"
cortex-m = "0.7"
cortex-m-rt = "0.7"
defmt = "0.3"
defmt-rtt = "0.4"
embedded-hal = "0.2"
panic-probe = "0.3"
rp2040-boot2 = "0.3"
rp2040-hal = "0.9"
