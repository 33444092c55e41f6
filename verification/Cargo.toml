[package]
name = "rustic"
version = "0.1.0"
edition = "2021"
publish = false

[dependencies]
async-h1 = "2.3"
async-std = "1"
async-trait = "0.1"
base64 = "0.13"
futures-core = "0.3"
http-types = "2"
kv-log-macro = "1"
libc = "0.2"
regex = "1"
routefinder = "0.5"
serde = "1"
serde_json = "1"
sqlx = { version = "0.7", default-features = false }
utoipa = "3"
utoipa-swagger-ui = "3"
