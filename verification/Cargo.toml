[package]
name = "deno_permissions"
version = "0.1.0"
edition = "2021"
publish = false

[dependencies]
rand = "0.8"
fqdn = "*"
ipnet = "2"
url = "2"
deno_path_util = "*"
serde = { version = "1", features = ["derive"] }
serde_json = "1"
