[package]
name = "url_shortener"
version = "0.1.0"
edition = "2021"
publish = false

[dependencies]
base64 = "=0.22.1"
xxhash-rust = { version = "=0.8.19", features = ["xxh3"] }
bson = "=2.15.0"
chrono = { version = "=0.4.45", default-features = false, features = ["clock"] }
mongodb = "=3.9.1"
actix-web = { version = "=4.18.1", default-features = false, features = ["macros"] }
axum = "=0.7.9"
tokio = { version = "=1.54.1", features = ["macros", "rt-multi-thread", "net"] }
tower-http = { version = "=0.5.2", features = ["cors"] }
serde = { version = "=1.0.229", features = ["derive"] }
serde_json = "=1.0.154"
dotenvy = "=0.15.7"
log = "=0.4.35"
yew = { version = "0.21", features = ["csr"] }
gloo = "0.11"
web-sys = { version = "0.3", features = ["HtmlInputElement"] }
