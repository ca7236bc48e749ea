[package]
name = "linked_data"
version = "0.1.0"
edition = "2021"
publish = false

[dependencies]
rdf-types = "0.22"
iref = "3"
im = "15"
thiserror = "1"
