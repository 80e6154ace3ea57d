[package]
name = "gub-wire"
version = "0.1.0"
edition = "2021"
publish = false

[dependencies]
anyhow = "=1.0.104"
futures = "=0.3.34"
getopts = "=0.2.24"
libc = "=0.2.191"
log = "=0.4.35"
postcard = { version = "=1.1.3", features = ["alloc"] }
quick-xml = { version = "=0.39.4", features = ["serialize"] }
serde = { version = "=1.0.229", features = ["derive"] }
sysinfo = "=0.40.1"
tokio = { version = "=1.54.1", features = ["full"] }
tokio-rustls = "=0.26.6"
zbus_systemd = { version = "=0.26201.0", features = ["systemd1", "zbus-async-tokio"] }
