[package]
name = "imgvwr"
version = "0.1.0"
edition = "2021"
publish = false

[dependencies]
image = { version = "*", default-features = false, features = ["png"] }
xkbcommon = "*"
wayland-client = "*"
wayland-protocols = { version = "*", features = ["client"] }
memmap2 = "*"
rustix = { version = "*", features = ["fs"] }
clap = { version = "*", features = ["derive"] }
clap_complete = "*"
clap_complete_nushell = "*"
serde = { version = "*", features = ["derive"] }
toml = "*"
tracing = "*"
tracing-subscriber = { version = "*", features = ["env-filter", "fmt"] }
