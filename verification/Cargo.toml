[package]
name = "rusthub"
version = "0.1.0"
edition = "2021"
publish = false

[dependencies]
deunicode = "=1.6.2"
regex = "=1.13.1"
chrono = "=0.4.45"
pulldown-cmark = "=0.13.6"
percent-encoding = "=2.3.2"
fluent-bundle = "=0.15.3"
serde = { version = "=1.0.229", features = ["derive"] }
serde_json = "=1.0.154"
mongodb = { version = "=2.8.2", default-features = false, features = ["tokio-runtime", "bson-chrono-0_4"] }
async-graphql = { version = "=5.0.10", default-features = false, features = ["bson", "chrono"] }
tide = { version = "=0.16.0", default-features = false, features = ["h1-server", "cookies"] }
surf = { version = "=2.3.2", default-features = false }
graphql_client = "=0.13.0"
futures = "=0.3.34"
async-std = "=1.13.2"
dotenv = "=0.15.0"
lazy_static = "=1.5.1"
