[package]
name = "fn_search_backend"
version = "0.1.0"
edition = "2021"
publish = false

[dependencies]
radix_trie = "=0.3.0"
parking_lot = "=0.13.0"
regex = "=1.13.1"
select = "=0.6.1"
percent-encoding = "=2.3.2"
serde = { version = "=1.0.229", features = ["derive"] }
serde_json = "=1.0.154"
toml = "=1.1.8"
glob = "=0.3.4"
chrono = "=0.4.45"
wait-timeout = "=0.2.1"
rayon = "=1.12.0"
clap = "=2.34.0"
env_logger = "=0.11.11"
actix = "=0.13.5"
actix-web = "=4.18.1"
diesel = { version = "=1.4.8", features = ["postgres"] }
diesel_migrations = "=1.4.0"
r2d2 = "=0.8.10"
r2d2-diesel = "=1.0.0"
reqwest = { version = "=0.13.5", features = ["blocking"] }
jemallocator = "=0.5.4"
