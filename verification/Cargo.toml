[package]
name = "sentence_corpus"
version = "0.1.0"
edition = "2021"
publish = false

[dependencies]
regex = "1"
scraper = "*"
serde_json = "1"
rayon = "1"
tar = "*"
xz2 = "*"
