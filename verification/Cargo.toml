[package]
name = "zapf"
version = "0.1.0"
edition = "2021"
publish = false

[dependencies]
regex = "1"
ads = "*"
modbus = "*"
tango-client = "*"
thiserror = "1"
log = "0.4"
