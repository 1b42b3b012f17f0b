[package]
name = "pi_build"
version = "0.1.0"
edition = "2021"
publish = false

[dependencies]
allocative = "*"
anyhow = "*"
clap = { version = "*", features = ["derive"] }
comfy-table = "*"
dashmap = "*"
dirs-next = "*"
ego-tree = "*"
env_logger = "*"
flate2 = "*"
hex = "*"
log = "*"
parking_lot = "*"
rayon = "*"
regex = "*"
scraper = "*"
serde = { version = "*", features = ["derive"] }
serde_json = "*"
serde_json_path = "*"
sha1 = "*"
sha2 = "*"
starlark = "*"
tar = "*"
toml = "*"
ureq = "*"
walkdir = "*"
whoami = "*"
xdg = "*"
xmltree = "*"
xz2 = "*"
zip = "*"
