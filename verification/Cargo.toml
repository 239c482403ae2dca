[package]
name = "image_sort"
version = "0.1.0"
edition = "2021"
publish = false

[dependencies]
anyhow = "1"
chrono = "0.4"
clap = { version = "4", features = ["derive"] }
env_logger = "0.11"
eyre = "0.6"
indicatif = "0.17"
kamadak-exif = "0.5"
log = "0.4"
lru = "0.12"
once_cell = "1"
rand = "0.9"
rayon = "1"
regex = "1"
reverse_geocoder = "4"
thiserror = "1"
