[package]
name = "shelly_exporter"
version = "0.1.0"
edition = "2021"
publish = false

[dependencies]
actix-web = { version = "4", default-features = false, features = ["macros"] }
chrono = { version = "0.4", default-features = false, features = ["clock", "std"] }
clap = { version = "4", features = ["derive"] }
colog = "1"
log = "0.4"
once_cell = "1"
reqwest = { version = "0.12", default-features = false, features = ["json"] }
serde_json = { version = "1", features = ["arbitrary_precision"] }
