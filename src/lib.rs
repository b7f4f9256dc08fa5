//! Session establishment for a networked multiplayer game: the credential
//! model, the wire format of a token-issuance response, the client and server
//! session managers, and the application state machine they drive.
use vstd::prelude::*;

pub mod address;
pub mod wire;
pub mod credential;
pub mod states;
pub mod client;
pub mod server;

verus! {

/// The protocol's ticks per second.
pub const TARGET_TICK_RATE: u64 = 60;

/// The length of one tick in whole milliseconds.
pub const TICK_DURATION_MILLIS: u64 = 1000 / TARGET_TICK_RATE;

/// The length of one tick in whole milliseconds: a thousand divided by the
/// tick rate.
pub fn tick_duration_millis() -> (r: u64)
    ensures
        r == 1000u64 / TARGET_TICK_RATE,
        r == 16,
{
    TICK_DURATION_MILLIS
}

} // verus!
