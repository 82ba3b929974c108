[package]
name = "p2p-tor-chat"
version = "0.1.0"
edition = "2021"
publish = false

[dependencies]
threadpool = "=1.8.1"
rand = "=0.8.8"
torut = "=0.1.10"
bincode = "=1.3.3"
serde = { version = "=1.0.229", features = ["derive"] }
socks = "=0.3.4"
tokio = { version = "=1.54.1", features = ["rt-multi-thread", "net"] }
gtk = "=0.9.2"
glib = "=0.10.3"
gio = "=0.9.1"
gdk-pixbuf = "=0.9.0"
