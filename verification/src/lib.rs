use vstd::prelude::*;

pub mod finger;
pub mod wrap;
pub mod textutil;
pub mod wire;
pub mod ids;
pub mod keyboard_layout;
pub mod session;
pub mod lessons;
pub mod texts;
pub mod peers;
pub mod lobby;
pub mod app_state;
