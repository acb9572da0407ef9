[package]
name = "genshin_windsong_player"
version = "0.1.0"
edition = "2021"
publish = false

[dependencies]
enigo = "=0.6.1"
midi-reader-writer = { version = "=0.1.3", features = ["engine-midly-0-5"] }
