[package]
name = "xmledit"
version = "0.1.0"
edition = "2021"
publish = false

[dependencies]
quick-xml = "0.31"
clap = { version = "4", features = ["derive"] }
csv = "1"
ctrlc = "3"
linfa = "0.7"
linfa-clustering = "0.7"
linfa-reduction = "0.7"
ndarray = "0.15"
serde = { version = "1", features = ["derive"] }
serde_json = "1"
thiserror = "1"
ureq = { version = "2", default-features = false, features = ["json"] }
