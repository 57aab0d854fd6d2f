[package]
name = "wikipedia-graph"
version = "0.1.0"
edition = "2021"
publish = false

[dependencies]
url = "2"
serde_json = "1"
http = "1"
petgraph = "*"
url_encor = "*"
ehttp = "*"
web-time = "1"
log = "0.4"
thiserror = "*"
fastrand = "2"
codegen = "*"
mediawiki = "*"

[dev-dependencies]
regex = "1"
