[package]
name = "tsv_grep"
version = "0.1.0"
edition = "2021"
publish = false

[dependencies]
ansi_term = "0.12"
clap = { version = "4", features = ["derive"] }
rayon = "1"
regex = "1"
strip-ansi-escapes = "0.1"
thiserror = "1"
