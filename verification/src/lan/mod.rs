//! Game announcements on the local network.

pub mod decimal;
pub mod error;
pub mod game_data;
pub mod game_info;
