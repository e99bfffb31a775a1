[package]
name = "stw_game_lib"
version = "0.1.0"
edition = "2021"
publish = false

[dependencies]
rand = "0.8"
rand_pcg = "0.3"
rand_seeder = "0.2"
noise = "0.8"
colored = "2"
serde = { version = "1", features = ["derive"] }
serde_json = "1"
strum = "0.25"
strum_macros = "0.25"
