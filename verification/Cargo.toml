[package]
name = "json_predicate"
version = "0.1.0"
edition = "2021"
publish = false

[dependencies]
regex = "*"
chrono = "*"
langtag = "*"
fluent-langneg = "*"
serde = "*"
serde_json = "*"
json-pointer = "*"
