//! The relay ("node") side: tokens, pending players and game sessions.

pub mod error;
pub mod session;
