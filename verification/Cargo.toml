[package]
name = "jsonschema-valid"
version = "0.5.2"
edition = "2021"
publish = false

[dependencies]
chrono = "0.4"
iri-string = "*"
itertools = "*"
json-pointer = "*"
lazy_static = "1"
percent-encoding = "2"
regex = "1"
serde_json = "1"
textwrap = "*"
url = "2"
