[package]
name = "thesis"
version = "0.1.0"
edition = "2021"
publish = false

[dependencies]
ahash = "=0.8.12"
allocator-api2 = "=0.2.21"
anyhow = "=1.0.104"
hashbrown = "=0.14.5"
itertools = "=0.10.5"
parking_lot = "=0.12.5"
rtrb = "=0.2.3"
thiserror = "=1.0.69"
tracing = "=0.1.44"

[dev-dependencies]
rand = "=0.8.8"
