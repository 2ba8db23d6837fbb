[package]
name = "filet_core"
version = "0.1.0"
edition = "2021"
publish = false

[dependencies]
chrono = "0.4"
globset = "0.4"
sha2 = "0.10"
serde = { version = "1", features = ["derive"] }
serde_json = "1"
yaml_serde = "*"
rusqlite = { version = "*", features = ["bundled"] }
walkdir = "2"
filetime = "0.2"
fs2 = "0.4"
clap = { version = "4", features = ["derive"] }
ctrlc = "3"
directories = "*"
notify = "*"
libc = "0.2"
rquickjs = { version = "*", features = ["loader"] }
schemars = "*"

[dev-dependencies]
tempfile = "3"
