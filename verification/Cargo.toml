[package]
name = "amiya"
version = "0.1.0"
edition = "2021"
publish = false

[dependencies]
http-types = "2"
async-h1 = "2"
async-net = "1"
async-io = "1"
async-executor = "1"
async-channel = "1"
futures-lite = "1"
num_cpus = "1"
once_cell = "1"
log = "0.4"
