[package]
name = "europa"
version = "0.1.0"
edition = "2021"
publish = false

[dependencies]
kvdb = "=0.11.0"
kvdb-rocksdb = "=0.15.2"
hex = "=0.4.3"
regex = "=1.13.1"
serde = { version = "=1.0.229", features = ["derive"] }
serde_json = "=1.0.154"
structopt = "=0.3.26"
log = "=0.4.34"
ansi_term = "=0.12.1"
tracing = { version = "=0.1.44", default-features = false, features = ["std"] }

# The backend that the tests run the store on.
[dev-dependencies]
kvdb-memorydb = "=0.11.0"
