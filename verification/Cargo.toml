[package]
name = "op_resolver"
version = "0.1.0"
edition = "2021"
publish = false

[dependencies]
async-graphql-parser = "*"
async-graphql-value = "*"
serde_json = "*"
