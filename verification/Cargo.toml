[package]
name = "disruptor"
version = "3.6.1"
edition = "2021"
publish = false

[dependencies]
core_affinity = "0.8"
crossbeam-utils = "0.8"
parking_lot = "0.12"
thiserror = "2"
