[package]
name = "yunxi_webdisk"
version = "0.1.0"
edition = "2021"
publish = false

[dependencies]
base64 = "0.21"
percent-encoding = "2"
rand = "0.8"
chrono = { version = "0.4", default-features = false, features = ["clock", "std"] }
serde = { version = "1", features = ["derive"] }
serde_yaml = "0.9"
tera = { version = "1", default-features = false }
actix-web = { version = "4", default-features = false, features = ["macros", "compress-gzip"] }
actix-files = "0.6"
dav-server = { version = "0.5", default-features = false, features = ["localfs"] }
hyper = { version = "0.14", features = ["stream"] }
futures-util = "0.3"
libc = "0.2"
num_cpus = "1"
