//! The lobby side: the control connection of one player.

pub mod connect;
pub mod error;
pub mod laws;
