//! The sections of the settings file that hold no fractional numbers: the
//! Twitch account, the language model server and the OBS connection.
use vstd::prelude::*;

verus! {

/// The Twitch bot account and the channel it plays in.
#[derive(Debug)]
pub struct Twitch {
    pub bot_channel: String,
    pub racer_channel: String,
    pub client_id: String,
    pub client_secret: String,
    pub redirect_port: u16,
    pub debug_messages: bool,
    pub browser_open: bool,
}

/// The language model and how often a frame is read.
#[derive(Debug)]
pub struct Llm {
    pub cycle_time: i32,
    pub client_only: bool,
    pub address: String,
    pub port: u64,
    pub model_path: String,
    pub mmproj_path: String,
    pub disable_gpu: bool,
}

/// The OBS websocket to take screenshots from.
#[derive(Debug)]
pub struct Obs {
    pub ip: String,
    pub port: u16,
    pub password: String,
}

} // verus!
