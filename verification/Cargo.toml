[package]
name = "docx_rust"
version = "0.1.0"
edition = "2021"
publish = false

[dependencies]
hard-xml = "*"
zip = { version = "*", default-features = false, features = ["deflate"] }
async_zip = { version = "*", default-features = false, features = ["deflate"] }
futures-io = "*"
thiserror = "*"
derive_more = { version = "*", features = ["from"] }
