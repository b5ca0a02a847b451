[package]
name = "selene_lang"
version = "0.1.0"
edition = "2021"
publish = false

[dependencies]
clap = { version = "4", features = ["derive"] }
dirs = "5"
lasso = { version = "0.7", features = ["multi-threaded"] }
miette = "5"
num-bigint = "0.4"
thiserror = "1"
unicode-xid = "0.2"
