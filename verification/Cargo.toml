[package]
name = "adsys_mount"
version = "0.1.0"
edition = "2021"
publish = false

[dependencies]
gio = "0.15"
glib = "0.15"
log = "0.4"
serde = { version = "1", features = ["derive"] }
serde_json = "1"
thiserror = "1"
time = { version = "0.3", features = ["formatting", "macros"] }
