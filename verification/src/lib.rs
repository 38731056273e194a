//! Kart Stocks: a stream game in which viewers trade shares in the current
//! Mario Kart race. This library holds the game's rules, the text it speaks
//! and parses, and the decisions around the outside services.
pub mod data;
pub mod extract;
pub mod llm;
pub mod obs;
pub mod phash;
pub mod portfolio;
pub mod run;
pub mod settings;
pub mod text;
pub mod twitch;
pub mod twitch_auth;
pub mod window;
