[package]
name = "fe"
version = "0.1.0"
edition = "2021"
publish = false

[dependencies]
directories = "5"
egui = { version = "0.27", default-features = false }
egui_extras = { version = "0.27", default-features = false }
home = "0.5"
libc = "0.2"
rusqlite = { version = "0.31", features = ["bundled"] }
serde = { version = "1", features = ["derive"] }
structopt = "0.3"
toml = "0.8"
