//! Server core of a length-prefixed remote-console protocol: a binary packet
//! codec and a per-connection command dispatcher over a session roster and
//! whitelist. The surrounding transport loop and the player-directory lookup
//! live outside this crate; the dispatcher hands a pending lookup back to its
//! caller and finishes the command once the answer arrives.

pub mod packet;
pub mod rcon_minecraft;
pub mod text;
