[package]
name = "steamos-manager"
version = "24.11.0"
edition = "2021"
publish = false

[dependencies]
anyhow = "1"
async-trait = "0.1"
clap = { version = "4", features = ["derive"] }
config = { version = "0.14", default-features = false, features = ["async", "toml"] }
inotify = { version = "0.11", default-features = false, features = ["stream"] }
itertools = "0.13"
libc = "0.2"
nix = { version = "0.29", default-features = false, features = ["fs", "signal"] }
serde = { version = "1", features = ["derive"] }
tokio = { version = "1", features = ["fs", "io-std", "io-util", "macros", "net", "process", "rt-multi-thread", "signal", "sync", "time"] }
tokio-stream = "0.1"
tokio-util = "0.7"
toml = "0.8"
tracing = "0.1"
tracing-subscriber = { version = "0.3", default-features = false, features = ["fmt", "registry"] }
udev = { version = "0.9", features = ["send"] }
xdg = "2.5"
zbus = { version = "4", default-features = false, features = ["tokio"] }
zbus_xml = "4"
zvariant = "4"

[dev-dependencies]
num_enum = "0.7"
strum = { version = "0.26", features = ["derive"] }
