[package]
name = "cwb_weather"
version = "0.1.0"
edition = "2021"
publish = false

[dependencies]
chrono = "0.4"
dotenv = "0.15"
hyper = { version = "0.14", features = ["full"] }
itertools = "0.10"
querystring = "1"
rayon = "1"
reqwest = { version = "0.11", features = ["json"] }
routerify = "3"
serde = { version = "1", features = ["derive"] }
serde_json = "1"
tokio = { version = "1", features = ["full"] }
