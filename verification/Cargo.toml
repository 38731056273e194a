[package]
name = "kart_stocks"
version = "0.1.0"
edition = "2021"
publish = false

[dependencies]
base64 = "0.22"
serde = { version = "1", features = ["derive"] }
serde_json = "1"
toml = "*"
rusqlite = { version = "*", features = ["bundled"] }
tokio = { version = "1", features = ["full"] }
uuid = { version = "1", features = ["v4"] }
image = { version = "0.25", default-features = false, features = ["jpeg", "png"] }
rand = "*"
open = "*"
prompted = "*"
reqwest = { version = "0.12", features = ["blocking", "json"] }
twitch-irc = "5"
obws = "*"
macroquad = "0.4"
livesplit-hotkey = "*"
ocrs = "*"
rten = "*"
