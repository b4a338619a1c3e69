[package]
name = "matryoshka_sqlite"
version = "0.1.0"
edition = "2021"
publish = false

[dependencies]
regex = "1"
rusqlite = { version = "0.28", features = ["blob", "limits"] }
