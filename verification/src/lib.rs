//! Session coordination for multiplayer games: the relay-side registry that
//! turns a create-game request into per-player connection tokens, the
//! lobby-side state machine that keeps one player's control connection
//! alive, and the announcement of games on the local network.

pub mod lan;
pub mod lobby;
pub mod node;
