[package]
name = "ycm_core"
version = "0.1.0"
edition = "2021"
publish = false

[dependencies]
regex = "1"
unicode-segmentation = "1"
unicode-normalization = "0.1"
unicode-linebreak = "0.1"
lcs = "0.2"
partial_sort = "*"
smallvec = "1"
itertools = "0.10"
serde = { version = "1", features = ["derive"] }
serde_json = "1"
shellexpand = "2"
dirs = "*"
log = "0.4"
lazy_static = "1"
tokio = { version = "1", features = ["full"] }
warp = "0.3"
ring = "0.16"
base64 = "0.13"
structopt = "0.3"
env_logger = "*"
filedescriptor = "*"
futures = "0.3"
anyhow = "1"
jsonrpc-core = "*"
lsp-types = "*"
bytes = "1"
sharded-slab = "0.1"

[dev-dependencies]
tempfile = "3"
