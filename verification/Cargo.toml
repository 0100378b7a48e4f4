[package]
name = "svc_scheduler"
version = "0.1.0"
edition = "2021"
publish = false

[dependencies]
chrono = "0.4"
rrule = "*"
iso8601-duration = { version = "*", features = ["chrono"] }
uuid = { version = "1", features = ["v4"] }
serde = { version = "1", features = ["derive"] }
serde_json = "1"
petgraph = "*"
ordered-float = "*"
geo = "*"
rand = "0.8"
log = "0.4"
tokio = { version = "1", features = ["rt-multi-thread", "macros", "sync", "time", "signal"] }
tonic = "*"
prost = "*"
prost-types = "*"
deadpool-redis = "*"
num-traits = "0.2"
num-derive = "0.4"
lazy_static = "1"
once_cell = "1"
anyhow = "1"
dotenv = "*"
async-trait = "*"
cfg-if = "1"
http = "*"
