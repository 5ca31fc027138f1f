[package]
name = "atlas_77"
version = "0.8.0"
edition = "2021"
publish = false

[dependencies]
clap = { version = "=4.6.7", features = ["derive"] }
miette = "=7.6.0"
lang-c = "=0.15.1"
logos = "0.16"
target-lexicon = "=0.12.16"
thiserror = "=2.0.21"
