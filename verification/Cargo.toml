[package]
name = "ark_client"
version = "0.1.0"
edition = "2021"
publish = false

[dependencies]
ark-core = "=0.1.0"
ark-grpc = "=0.1.0"
bitcoin = "=0.32.102"
futures = "=0.3.34"
jiff = "=0.2.38"
tracing = "=0.1.44"
