[package]
name = "oblivious_board"
version = "0.1.0"
edition = "2021"
publish = false

[dependencies]
phantom-zone = { version = "=0.1.0", features = ["non_interactive_mp"] }
rayon = "=1.12.0"
rand = "=0.8.8"

[dev-dependencies]
itertools = "=0.15.0"
