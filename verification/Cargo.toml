[package]
name = "flashcards"
version = "0.1.0"
edition = "2021"

[dependencies]
crossterm = "=0.25.0"
rand = "=0.8.8"
serde = { version = "=1.0.229", features = ["derive"] }
shuffle = { version = "=0.2.1", default-features = false, features = ["bitvec-1_0", "rand-0_8"] }
tui = "=0.19.0"
